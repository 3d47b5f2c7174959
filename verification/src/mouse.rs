//! Mouse-driven turning for Doom: horizontal mouse motion presses the turn
//! keys, which are held for a few ticks and then released.

use vstd::prelude::*;
use crate::keys::{DOOM_KEY_LEFT, DOOM_KEY_RIGHT};

verus! {

/// How many ticks a turn key stays held after the last motion in its direction.
pub const TURN_HOLD_TICKS: u8 = 2;

/// One horizontal mouse motion, classified against the turn threshold.
#[derive(Clone, Copy, Debug, PartialEq, Eq, Structural)]
pub enum TurnInput {
    /// Motion to the right beyond the threshold.
    Right,
    /// Motion to the left beyond the threshold.
    Left,
    /// Motion within the threshold.
    Still,
}

/// The turn state as plain values.
#[derive(Clone, Copy, Debug, PartialEq, Eq, Structural)]
pub struct TurnView {
    pub left_timer: u8,
    pub right_timer: u8,
    pub left_active: bool,
    pub right_active: bool,
}

/// Which turn keys are held down and for how many more ticks.
pub struct MouseTurnState {
    left_timer: u8,
    right_timer: u8,
    left_active: bool,
    right_active: bool,
}

impl View for MouseTurnState {
    type V = TurnView;

    closed spec fn view(&self) -> TurnView {
        TurnView {
            left_timer: self.left_timer,
            right_timer: self.right_timer,
            left_active: self.left_active,
            right_active: self.right_active,
        }
    }
}

/// The state every operation keeps: a key is held exactly while its timer
/// runs, timers never exceed the hold time, and at most one key is held.
pub open spec fn turn_wf(s: TurnView) -> bool {
    &&& s.left_timer <= TURN_HOLD_TICKS
    &&& s.right_timer <= TURN_HOLD_TICKS
    &&& s.left_active <==> s.left_timer > 0
    &&& s.right_active <==> s.right_timer > 0
    &&& !(s.left_active && s.right_active)
}

/// The idle state: no key held, no timer running.
pub open spec fn turn_idle() -> TurnView {
    TurnView { left_timer: 0, right_timer: 0, left_active: false, right_active: false }
}

/// The keys held in `s`.
pub open spec fn held_keys(s: TurnView) -> Set<u8> {
    let l = if s.left_active {
        set![DOOM_KEY_LEFT]
    } else {
        Set::empty()
    };
    let r = if s.right_active {
        set![DOOM_KEY_RIGHT]
    } else {
        Set::empty()
    };
    l + r
}

/// The key events (pressed, scancode) and next state for one motion.
pub open spec fn process_spec(s: TurnView, input: TurnInput) -> (Seq<(bool, u8)>, TurnView) {
    match input {
        TurnInput::Right => {
            let press = if !s.right_active {
                seq![(true, DOOM_KEY_RIGHT)]
            } else {
                Seq::empty()
            };
            let release = if s.left_active {
                seq![(false, DOOM_KEY_LEFT)]
            } else {
                Seq::empty()
            };
            (
                press + release,
                TurnView {
                    right_timer: TURN_HOLD_TICKS,
                    right_active: true,
                    left_active: false,
                    left_timer: if s.left_active {
                        0
                    } else {
                        s.left_timer
                    },
                },
            )
        },
        TurnInput::Left => {
            let press = if !s.left_active {
                seq![(true, DOOM_KEY_LEFT)]
            } else {
                Seq::empty()
            };
            let release = if s.right_active {
                seq![(false, DOOM_KEY_RIGHT)]
            } else {
                Seq::empty()
            };
            (
                press + release,
                TurnView {
                    left_timer: TURN_HOLD_TICKS,
                    left_active: true,
                    right_active: false,
                    right_timer: if s.right_active {
                        0
                    } else {
                        s.right_timer
                    },
                },
            )
        },
        TurnInput::Still => (Seq::empty(), s),
    }
}

/// The keys released and next state for one tick: each running timer counts
/// down, and a held key whose timer reaches zero is released.
pub open spec fn tick_spec(s: TurnView) -> (Seq<u8>, TurnView) {
    let left_timer = if s.left_timer > 0 {
        (s.left_timer - 1) as u8
    } else {
        0u8
    };
    let right_timer = if s.right_timer > 0 {
        (s.right_timer - 1) as u8
    } else {
        0u8
    };
    let release_left = s.left_timer > 0 && left_timer == 0 && s.left_active;
    let release_right = s.right_timer > 0 && right_timer == 0 && s.right_active;
    let l = if release_left {
        seq![DOOM_KEY_LEFT]
    } else {
        Seq::empty()
    };
    let r = if release_right {
        seq![DOOM_KEY_RIGHT]
    } else {
        Seq::empty()
    };
    (
        l + r,
        TurnView {
            left_timer,
            right_timer,
            left_active: s.left_active && !release_left,
            right_active: s.right_active && !release_right,
        },
    )
}

/// The keys a reset releases: every held key, left first.
pub open spec fn reset_spec(s: TurnView) -> Seq<u8> {
    let l = if s.left_active {
        seq![DOOM_KEY_LEFT]
    } else {
        Seq::empty()
    };
    let r = if s.right_active {
        seq![DOOM_KEY_RIGHT]
    } else {
        Seq::empty()
    };
    l + r
}

impl MouseTurnState {
    /// The idle state.
    pub fn new() -> (r: Self)
        ensures
            r@ == turn_idle(),
    {
        MouseTurnState { left_timer: 0, right_timer: 0, left_active: false, right_active: false }
    }

    /// Reacts to one mouse motion, returning the key events to send as
    /// (pressed, scancode) pairs.
    pub fn process_delta(&mut self, input: TurnInput) -> (events: Vec<(bool, u8)>)
        ensures
            (events@, final(self)@) == process_spec(old(self)@, input),
    {
        let mut events: Vec<(bool, u8)> = Vec::new();
        match input {
            TurnInput::Right => {
                self.right_timer = TURN_HOLD_TICKS;
                if !self.right_active {
                    events.push((true, DOOM_KEY_RIGHT));
                    self.right_active = true;
                }
                if self.left_active {
                    events.push((false, DOOM_KEY_LEFT));
                    self.left_active = false;
                    self.left_timer = 0;
                }
            },
            TurnInput::Left => {
                self.left_timer = TURN_HOLD_TICKS;
                if !self.left_active {
                    events.push((true, DOOM_KEY_LEFT));
                    self.left_active = true;
                }
                if self.right_active {
                    events.push((false, DOOM_KEY_RIGHT));
                    self.right_active = false;
                    self.right_timer = 0;
                }
            },
            TurnInput::Still => {},
        }
        assert(events@ =~= process_spec(old(self)@, input).0);
        events
    }

    /// Advances the hold timers by one tick, returning the scancodes of the
    /// keys released.
    pub fn tick(&mut self) -> (releases: Vec<u8>)
        ensures
            (releases@, final(self)@) == tick_spec(old(self)@),
    {
        let mut releases: Vec<u8> = Vec::new();
        if self.left_timer > 0 {
            self.left_timer -= 1;
            if self.left_timer == 0 && self.left_active {
                releases.push(DOOM_KEY_LEFT);
                self.left_active = false;
            }
        }
        if self.right_timer > 0 {
            self.right_timer -= 1;
            if self.right_timer == 0 && self.right_active {
                releases.push(DOOM_KEY_RIGHT);
                self.right_active = false;
            }
        }
        assert(releases@ =~= tick_spec(old(self)@).0);
        releases
    }

    /// Releases every held key and returns to the idle state.
    pub fn reset(&mut self) -> (releases: Vec<u8>)
        ensures
            releases@ == reset_spec(old(self)@),
            final(self)@ == turn_idle(),
    {
        let mut releases: Vec<u8> = Vec::new();
        if self.left_active {
            releases.push(DOOM_KEY_LEFT);
        }
        if self.right_active {
            releases.push(DOOM_KEY_RIGHT);
        }
        self.left_active = false;
        self.right_active = false;
        self.left_timer = 0;
        self.right_timer = 0;
        assert(releases@ =~= reset_spec(old(self)@));
        releases
    }
}

/// Law: the idle state is well formed, and every operation keeps the state
/// well formed.
pub proof fn law_turn_state_invariant(s: TurnView, input: TurnInput)
    requires
        turn_wf(s),
    ensures
        turn_wf(turn_idle()),
        turn_wf(process_spec(s, input).1),
        turn_wf(tick_spec(s).1),
{
}

/// Law: the events of a motion press only keys that were not held, release
/// only keys that were held, and leave exactly the keys of the new state held.
pub proof fn law_turn_events_consistent(s: TurnView, input: TurnInput)
    requires
        turn_wf(s),
    ensures
        ({
            let (events, next) = process_spec(s, input);
            &&& forall|i: int|
                0 <= i < events.len() && events[i].0 ==> !held_keys(s).contains(#[trigger] events[i].1)
            &&& forall|i: int|
                0 <= i < events.len() && !events[i].0 ==> held_keys(s).contains(#[trigger] events[i].1)
            &&& held_keys(next) == held_keys(s).union(
                Set::new(|k: u8| exists|i: int| 0 <= i < events.len() && events[i] == (true, k)),
            ).difference(
                Set::new(|k: u8| exists|i: int| 0 <= i < events.len() && events[i] == (false, k)),
            )
        }),
{
    let (events, next) = process_spec(s, input);
    let pressed = Set::new(|k: u8| exists|i: int| 0 <= i < events.len() && events[i] == (true, k));
    let released = Set::new(|k: u8| exists|i: int| 0 <= i < events.len() && events[i] == (false, k));
    match input {
        TurnInput::Right => {
            if !s.right_active {
                assert(events[0] == (true, DOOM_KEY_RIGHT));
            }
            if s.left_active {
                if !s.right_active {
                    assert(events[1] == (false, DOOM_KEY_LEFT));
                } else {
                    assert(events[0] == (false, DOOM_KEY_LEFT));
                }
            }
        },
        TurnInput::Left => {
            if !s.left_active {
                assert(events[0] == (true, DOOM_KEY_LEFT));
            }
            if s.right_active {
                if !s.left_active {
                    assert(events[1] == (false, DOOM_KEY_RIGHT));
                } else {
                    assert(events[0] == (false, DOOM_KEY_RIGHT));
                }
            }
        },
        TurnInput::Still => {},
    }
    assert(held_keys(next) =~= held_keys(s).union(pressed).difference(released));
}

/// Law: a tick releases exactly the held keys whose timer runs out, and a
/// reset releases exactly the held keys.
pub proof fn law_releases_match_held(s: TurnView)
    requires
        turn_wf(s),
    ensures
        ({
            let (releases, next) = tick_spec(s);
            &&& forall|i: int| 0 <= i < releases.len() ==> held_keys(s).contains(#[trigger] releases[i])
            &&& held_keys(next) == held_keys(s).difference(releases.to_set())
        }),
        reset_spec(s).to_set() == held_keys(s),
        held_keys(turn_idle()) == Set::<u8>::empty(),
{
    let (releases, next) = tick_spec(s);
    if releases.len() > 0 {
        assert(releases.contains(releases[0]));
    }
    if releases.len() > 1 {
        assert(releases.contains(releases[1]));
    }
    assert(held_keys(next) =~= held_keys(s).difference(releases.to_set()));
    let all = reset_spec(s);
    if all.len() > 0 {
        assert(all.contains(all[0]));
    }
    if all.len() > 1 {
        assert(all.contains(all[1]));
    }
    assert(reset_spec(s).to_set() =~= held_keys(s));
    assert(held_keys(turn_idle()) =~= Set::<u8>::empty());
}

/// Law: without further motion, every held key is released within the hold
/// time: two ticks from any state reach the idle state.
pub proof fn law_turn_settles(s: TurnView)
    requires
        turn_wf(s),
    ensures
        tick_spec(tick_spec(s).1).1 == turn_idle(),
{
}

/// One call on the turn state: a classified motion, a tick or a reset.
#[derive(Clone, Copy, Debug, PartialEq, Eq, Structural)]
pub enum TurnOp {
    Motion(TurnInput),
    Tick,
    Reset,
}

/// Released keys as key events.
pub open spec fn as_releases(keys: Seq<u8>) -> Seq<(bool, u8)> {
    keys.map_values(|k: u8| (false, k))
}

/// The key events and next state of one call, with the keys that a tick or
/// a reset releases counted as release events.
pub open spec fn op_spec(s: TurnView, op: TurnOp) -> (Seq<(bool, u8)>, TurnView) {
    match op {
        TurnOp::Motion(input) => process_spec(s, input),
        TurnOp::Tick => (as_releases(tick_spec(s).0), tick_spec(s).1),
        TurnOp::Reset => (as_releases(reset_spec(s)), turn_idle()),
    }
}

/// The key events and final state of a sequence of calls from `s`.
pub open spec fn run_ops(s: TurnView, ops: Seq<TurnOp>) -> (Seq<(bool, u8)>, TurnView)
    decreases ops.len(),
{
    if ops.len() == 0 {
        (seq![], s)
    } else {
        let prev = run_ops(s, ops.drop_last());
        let step = op_spec(prev.1, ops.last());
        (prev.0 + step.0, step.1)
    }
}

/// The press flags of the events for key `k`, in order.
pub open spec fn key_flags(events: Seq<(bool, u8)>, k: u8) -> Seq<bool>
    decreases events.len(),
{
    if events.len() == 0 {
        seq![]
    } else {
        let prev = key_flags(events.drop_last(), k);
        if events.last().1 == k {
            prev.push(events.last().0)
        } else {
            prev
        }
    }
}

/// Whether flags alternate press, release, press, ... starting with a press.
pub open spec fn alternating(f: Seq<bool>) -> bool {
    forall|i: int| 0 <= i < f.len() ==> #[trigger] f[i] == (i % 2 == 0)
}

/// Whether turn key `k` is held in `s`.
pub open spec fn is_held(s: TurnView, k: u8) -> bool {
    (k == DOOM_KEY_LEFT && s.left_active) || (k == DOOM_KEY_RIGHT && s.right_active)
}

proof fn lemma_key_flags_append(a: Seq<(bool, u8)>, b: Seq<(bool, u8)>, k: u8)
    ensures
        key_flags(a + b, k) == key_flags(a, k) + key_flags(b, k),
    decreases b.len(),
{
    if b.len() == 0 {
        assert(a + b =~= a);
        assert(key_flags(a, k) + key_flags(b, k) =~= key_flags(a, k));
    } else {
        lemma_key_flags_append(a, b.drop_last(), k);
        assert((a + b).drop_last() =~= a + b.drop_last());
        assert((a + b).last() == b.last());
        assert(key_flags(a + b, k) =~= key_flags(a, k) + key_flags(b, k));
    }
}

proof fn lemma_key_flags_one(e: (bool, u8), k: u8)
    ensures
        key_flags(seq![e], k) == if e.1 == k {
            seq![e.0]
        } else {
            Seq::<bool>::empty()
        },
{
    assert(seq![e].drop_last() =~= Seq::<(bool, u8)>::empty());
    assert(key_flags(Seq::<(bool, u8)>::empty(), k) =~= Seq::<bool>::empty());
    assert(Seq::<bool>::empty().push(e.0) =~= seq![e.0]);
}

proof fn lemma_key_flags_two(e: (bool, u8), f: (bool, u8), k: u8)
    ensures
        key_flags(seq![e] + seq![f], k) == key_flags(seq![e], k) + key_flags(seq![f], k),
{
    lemma_key_flags_append(seq![e], seq![f], k);
}

/// One call emits, for each turn key, one event exactly when it changes
/// whether the key is held, and that event says whether it is now held.
proof fn lemma_op_flags(s: TurnView, op: TurnOp, k: u8)
    requires
        turn_wf(s),
        k == DOOM_KEY_LEFT || k == DOOM_KEY_RIGHT,
    ensures
        turn_wf(op_spec(s, op).1),
        key_flags(op_spec(s, op).0, k) == if is_held(s, k) != is_held(op_spec(s, op).1, k) {
            seq![is_held(op_spec(s, op).1, k)]
        } else {
            Seq::<bool>::empty()
        },
{
    let (events, next) = op_spec(s, op);
    let l = DOOM_KEY_LEFT;
    let r = DOOM_KEY_RIGHT;
    let empty = Seq::<(bool, u8)>::empty();
    assert(key_flags(empty, k) =~= Seq::<bool>::empty());
    lemma_key_flags_one((true, l), k);
    lemma_key_flags_one((true, r), k);
    lemma_key_flags_one((false, l), k);
    lemma_key_flags_one((false, r), k);
    lemma_key_flags_two((true, r), (false, l), k);
    lemma_key_flags_two((true, l), (false, r), k);
    lemma_key_flags_two((false, l), (false, r), k);
    match op {
        TurnOp::Motion(input) => {
            match input {
                TurnInput::Right => {
                    if !s.right_active && s.left_active {
                        assert(events =~= seq![(true, r)] + seq![(false, l)]);
                    } else if !s.right_active {
                        assert(events =~= seq![(true, r)]);
                    } else if s.left_active {
                        assert(events =~= seq![(false, l)]);
                    } else {
                        assert(events =~= empty);
                    }
                },
                TurnInput::Left => {
                    if !s.left_active && s.right_active {
                        assert(events =~= seq![(true, l)] + seq![(false, r)]);
                    } else if !s.left_active {
                        assert(events =~= seq![(true, l)]);
                    } else if s.right_active {
                        assert(events =~= seq![(false, r)]);
                    } else {
                        assert(events =~= empty);
                    }
                },
                TurnInput::Still => {
                    assert(events =~= empty);
                },
            }
        },
        TurnOp::Tick => {
            let rl = s.left_timer == 1 && s.left_active;
            let rr = s.right_timer == 1 && s.right_active;
            if rl && rr {
                assert(events =~= seq![(false, l)] + seq![(false, r)]);
            } else if rl {
                assert(events =~= seq![(false, l)]);
            } else if rr {
                assert(events =~= seq![(false, r)]);
            } else {
                assert(events =~= empty);
            }
        },
        TurnOp::Reset => {
            if s.left_active && s.right_active {
                assert(events =~= seq![(false, l)] + seq![(false, r)]);
            } else if s.left_active {
                assert(events =~= seq![(false, l)]);
            } else if s.right_active {
                assert(events =~= seq![(false, r)]);
            } else {
                assert(events =~= empty);
            }
        },
    }
}

/// Over any sequence of motions, ticks and resets from the idle state, the
/// events of each turn key alternate press, release, press, ... starting with
/// a press; the key is held exactly when its last event was a press; and the
/// two keys are never held at once.
pub proof fn law_turn_presses_alternate(ops: Seq<TurnOp>, k: u8)
    requires
        k == DOOM_KEY_LEFT || k == DOOM_KEY_RIGHT,
    ensures
        ({
            let (events, s) = run_ops(turn_idle(), ops);
            &&& alternating(key_flags(events, k))
            &&& (key_flags(events, k).len() % 2 == 1) <==> is_held(s, k)
            &&& turn_wf(s)
            &&& !(s.left_active && s.right_active)
        }),
    decreases ops.len(),
{
    if ops.len() == 0 {
        assert(key_flags(Seq::<(bool, u8)>::empty(), k) =~= Seq::<bool>::empty());
    } else {
        law_turn_presses_alternate(ops.drop_last(), k);
        let (e0, s0) = run_ops(turn_idle(), ops.drop_last());
        let (e1, s1) = op_spec(s0, ops.last());
        lemma_op_flags(s0, ops.last(), k);
        lemma_key_flags_append(e0, e1, k);
        let f0 = key_flags(e0, k);
        let f = key_flags(e0 + e1, k);
        assert(run_ops(turn_idle(), ops) == (e0 + e1, s1));
        if is_held(s0, k) != is_held(s1, k) {
            assert(f =~= f0.push(is_held(s1, k)));
            assert forall|i: int| 0 <= i < f.len() implies #[trigger] f[i] == (i % 2 == 0) by {
                if i < f0.len() {
                    assert(f[i] == f0[i]);
                }
            }
        } else {
            assert(f =~= f0);
        }
    }
}

} // verus!
