//! Key input gathered between ticks, and the decisions of each tick: the
//! shape selection, the movement direction, turning and speed.

use vstd::prelude::*;

use crate::linalg::Vector;

verus! {

/// A key as the viewer sees it: the keys it binds to an action, and any
/// other key by an opaque code.
#[derive(Clone, Copy, Debug, PartialEq, Eq, Structural)]
pub enum Key {
    /// Select the next shape.
    Next,
    /// Select the previous shape.
    Previous,
    /// Move along `+x`.
    Right,
    /// Move along `-x`.
    Left,
    /// Move along `+y`.
    Rise,
    /// Move along `-y`.
    Sink,
    /// Move along `+z`.
    Back,
    /// Move along `-z`.
    Forward,
    /// Turn the yaw up.
    TurnLeft,
    /// Turn the yaw down.
    TurnRight,
    /// Turn the pitch up.
    LookUp,
    /// Turn the pitch down.
    LookDown,
    /// Move at the faster speed.
    Sprint,
    /// Any key without an action.
    Other(u32),
}

/// Whether a key event presses or releases its key.
#[derive(Clone, Copy, Debug, PartialEq, Eq, Structural)]
pub enum KeyState {
    Pressed,
    Released,
}

/// A finite set of keys.
pub struct KeySet {
    keys: Vec<Key>,
}

impl View for KeySet {
    type V = Set<Key>;

    closed spec fn view(&self) -> Set<Key> {
        self.keys@.to_set()
    }
}

impl KeySet {
    /// The empty set.
    pub fn new() -> (r: KeySet)
        ensures
            r@ == Set::<Key>::empty(),
    {
        let r = KeySet { keys: Vec::new() };
        proof {
            assert(r@ =~= Set::<Key>::empty()) by {
                reveal_with_fuel(Seq::to_set, 1);
            }
        }
        r
    }

    /// Whether `key` is in the set.
    pub fn contains(&self, key: &Key) -> (r: bool)
        ensures
            r == self@.contains(*key),
    {
        let mut i: usize = 0;
        while i < self.keys.len()
            invariant
                i <= self.keys@.len(),
                forall|j: int| 0 <= j < i ==> self.keys@[j] != *key,
            decreases self.keys@.len() - i,
        {
            if self.keys[i] == *key {
                proof { assert(self.keys@.contains(*key)); }
                return true;
            }
            i += 1;
        }
        false
    }

    /// Adds `key` to the set.
    pub fn insert(&mut self, key: Key)
        ensures
            final(self)@ == old(self)@.insert(key),
    {
        if !self.contains(&key) {
            self.keys.push(key);
        }
        proof {
            assert forall|k: Key| final(self)@.contains(k) == old(self)@.insert(key).contains(k) by {
                if k == key {
                    if !old(self)@.contains(key) {
                        assert(self.keys@[self.keys@.len() - 1] == key);
                    }
                } else if final(self)@.contains(k) {
                    let j = choose|j: int| 0 <= j < self.keys@.len() && self.keys@[j] == k;
                    assert(old(self).keys@[j] == k);
                } else if old(self)@.contains(k) {
                    let j = choose|j: int| 0 <= j < old(self).keys@.len() && old(self).keys@[j] == k;
                    assert(self.keys@[j] == k);
                }
            }
            assert(final(self)@ =~= old(self)@.insert(key));
        }
    }

    /// Takes `key` out of the set.
    pub fn remove(&mut self, key: &Key)
        ensures
            final(self)@ == old(self)@.remove(*key),
    {
        let mut kept: Vec<Key> = Vec::new();
        let mut i: usize = 0;
        while i < self.keys.len()
            invariant
                i <= self.keys@.len(),
                forall|j: int| 0 <= j < kept@.len() ==> kept@[j] != *key,
                forall|k: Key|
                    kept@.contains(k) <==> (k != *key && exists|j: int|
                        0 <= j < i && self.keys@[j] == k),
            decreases self.keys@.len() - i,
        {
            let k = self.keys[i];
            if k != *key {
                let ghost prev = kept@;
                kept.push(k);
                proof {
                    assert forall|x: Key|
                        kept@.contains(x) <==> (x != *key && exists|j: int|
                            0 <= j < i + 1 && self.keys@[j] == x) by {
                        if kept@.contains(x) {
                            let m = choose|m: int| 0 <= m < kept@.len() && kept@[m] == x;
                            if m < prev.len() {
                                assert(prev[m] == x);
                                assert(prev.contains(x));
                            } else {
                                assert(self.keys@[i as int] == x);
                            }
                        }
                        if x != *key && exists|j: int| 0 <= j < i + 1 && self.keys@[j] == x {
                            let j = choose|j: int| 0 <= j < i + 1 && self.keys@[j] == x;
                            if j < i {
                                assert(prev.contains(x));
                                let m = choose|m: int| 0 <= m < prev.len() && prev[m] == x;
                                assert(kept@[m] == x);
                            } else {
                                assert(kept@[prev.len() as int] == x);
                            }
                        }
                    }
                }
            } else {
                proof {
                    assert forall|x: Key|
                        kept@.contains(x) <==> (x != *key && exists|j: int|
                            0 <= j < i + 1 && self.keys@[j] == x) by {
                        if x != *key && exists|j: int| 0 <= j < i + 1 && self.keys@[j] == x {
                            let j = choose|j: int| 0 <= j < i + 1 && self.keys@[j] == x;
                            assert(j < i);
                        }
                    }
                }
            }
            i += 1;
        }
        let ghost before = self@;
        self.keys = kept;
        proof {
            assert forall|k: Key| final(self)@.contains(k) == before.remove(*key).contains(k) by {
                if exists|j: int| 0 <= j < old(self).keys@.len() && old(self).keys@[j] == k {
                    assert(old(self).keys@.contains(k));
                }
            }
            assert(final(self)@ =~= old(self)@.remove(*key));
        }
    }

    /// Empties the set.
    pub fn clear(&mut self)
        ensures
            final(self)@ == Set::<Key>::empty(),
    {
        self.keys = Vec::new();
        proof {
            assert(final(self)@ =~= Set::<Key>::empty());
        }
    }
}

/// Speed multiplier while the sprint key is up.
pub const WALK_SPEED: i64 = 2;

/// Speed multiplier while the sprint key is down.
pub const SPRINT_SPEED: i64 = 3;

/// The length of one tick, in nanoseconds.
pub const TICK_NANOS: u64 = 16_666_667;

/// Whether a tick is due after `elapsed_nanos` since the last one.
pub fn tick_due(elapsed_nanos: u64) -> (r: bool)
    ensures
        r == (elapsed_nanos >= TICK_NANOS),
{
    elapsed_nanos >= TICK_NANOS
}

/// The selection after the next-key: the index runs through `0..=count`, where
/// `count` itself stands for all shapes at once, and wraps round to `0`.
pub open spec fn select_next(shape: int, count: int) -> int {
    if shape == count {
        0
    } else {
        shape + 1
    }
}

/// The selection after the previous-key: from `0` it wraps round to `count`.
pub open spec fn select_previous(shape: int, count: int) -> int {
    if shape == 0 {
        count
    } else {
        shape - 1
    }
}

/// The selection after one tick in which `next` and `previous` may have been pressed.
pub open spec fn select_spec(shape: int, count: int, next: bool, previous: bool) -> int {
    let s = if next {
        select_next(shape, count)
    } else {
        shape
    };
    if previous {
        select_previous(s, count)
    } else {
        s
    }
}

/// Stepping the selection forward and then back, or back and then forward,
/// returns to where it was; `count + 1` forward steps go once round.
pub proof fn lemma_selection_round_trip(shape: int, count: int)
    requires
        0 <= shape <= count,
    ensures
        select_previous(select_next(shape, count), count) == shape,
        select_next(select_previous(shape, count), count) == shape,
        0 <= select_next(shape, count) <= count,
        0 <= select_previous(shape, count) <= count,
        select_next(shape, count) == (shape + 1) % (count + 1),
{
    if shape == count {
        assert((count + 1) % (count + 1) == 0) by (nonlinear_arith)
            requires
                count >= 0,
        ;
    } else {
        assert((shape + 1) % (count + 1) == shape + 1) by (nonlinear_arith)
            requires
                0 <= shape < count,
        ;
    }
}

/// `1` for the plus key alone, `-1` for the minus key alone, else `0`.
pub open spec fn axis(plus: bool, minus: bool) -> int {
    (if plus {
        1int
    } else {
        0int
    }) - (if minus {
        1int
    } else {
        0int
    })
}

/// The movement direction, before normalization, that the held keys ask for.
pub open spec fn direction_spec(down: Set<Key>) -> Seq<int> {
    seq![
        axis(down.contains(Key::Right), down.contains(Key::Left)),
        axis(down.contains(Key::Rise), down.contains(Key::Sink)),
        axis(down.contains(Key::Back), down.contains(Key::Forward)),
    ]
}

/// The speed multiplier that the held keys ask for.
pub open spec fn speed_spec(down: Set<Key>) -> int {
    if down.contains(Key::Sprint) {
        SPRINT_SPEED as int
    } else {
        WALK_SPEED as int
    }
}

/// What one tick asks of the camera: where to move, how to turn, how fast.
pub struct Steering {
    /// Each axis `-1`, `0` or `1`, in camera space before normalization.
    pub direction: Vector<3>,
    /// Steps of yaw: `1` to turn left, `-1` to turn right.
    pub yaw: i64,
    /// Steps of pitch: `1` to look up, `-1` to look down.
    pub pitch: i64,
    /// The speed multiplier.
    pub speed: i64,
}

/// The input gathered between ticks, and the shape selection.
pub struct Controls {
    /// Keys held now.
    pub keys_down: KeySet,
    /// Keys pressed since the last tick.
    pub keys_pressed: KeySet,
    /// Keys released since the last tick.
    pub keys_released: KeySet,
    /// The selected shape; `shape_count` selects all of them.
    pub shape: usize,
    /// How many shapes there are to select from.
    pub shape_count: usize,
}

impl Controls {
    /// The selection never passes the all-shapes slot.
    pub open spec fn wf(&self) -> bool {
        self.shape <= self.shape_count
    }

    /// No key held or pressed, the first shape selected.
    pub fn new(shape_count: usize) -> (r: Controls)
        ensures
            r.wf(),
            r.keys_down@ == Set::<Key>::empty(),
            r.keys_pressed@ == Set::<Key>::empty(),
            r.keys_released@ == Set::<Key>::empty(),
            r.shape == 0,
            r.shape_count == shape_count,
    {
        Controls {
            keys_down: KeySet::new(),
            keys_pressed: KeySet::new(),
            keys_released: KeySet::new(),
            shape: 0,
            shape_count,
        }
    }

    /// Whether `key` is held.
    pub fn key_down(&self, key: &Key) -> (r: bool)
        ensures
            r == self.keys_down@.contains(*key),
    {
        self.keys_down.contains(key)
    }

    /// Whether `key` is not held.
    pub fn key_up(&self, key: &Key) -> (r: bool)
        ensures
            r == !self.keys_down@.contains(*key),
    {
        !self.keys_down.contains(key)
    }

    /// Whether `key` was pressed since the last tick.
    pub fn key_pressed(&self, key: &Key) -> (r: bool)
        ensures
            r == self.keys_pressed@.contains(*key),
    {
        self.keys_pressed.contains(key)
    }

    /// Whether `key` was released since the last tick.
    pub fn key_released(&self, key: &Key) -> (r: bool)
        ensures
            r == self.keys_released@.contains(*key),
    {
        self.keys_released.contains(key)
    }

    /// Folds one key event into the gathered input. An event without a key
    /// changes nothing.
    pub fn handle_keyboard_input(&mut self, state: KeyState, key: Option<Key>)
        ensures
            final(self).shape == old(self).shape,
            final(self).shape_count == old(self).shape_count,
            match (state, key) {
                (KeyState::Pressed, Some(k)) => {
                    &&& final(self).keys_down@ == old(self).keys_down@.insert(k)
                    &&& final(self).keys_pressed@ == old(self).keys_pressed@.insert(k)
                    &&& final(self).keys_released@ == old(self).keys_released@
                },
                (KeyState::Released, Some(k)) => {
                    &&& final(self).keys_down@ == old(self).keys_down@.remove(k)
                    &&& final(self).keys_pressed@ == old(self).keys_pressed@
                    &&& final(self).keys_released@ == old(self).keys_released@.insert(k)
                },
                (_, None) => {
                    &&& final(self).keys_down@ == old(self).keys_down@
                    &&& final(self).keys_pressed@ == old(self).keys_pressed@
                    &&& final(self).keys_released@ == old(self).keys_released@
                },
            },
    {
        match (state, key) {
            (KeyState::Pressed, Some(k)) => {
                self.keys_pressed.insert(k);
                self.keys_down.insert(k);
            },
            (KeyState::Released, Some(k)) => {
                self.keys_released.insert(k);
                self.keys_down.remove(&k);
            },
            (_, None) => {},
        }
    }

    /// The decisions of one tick: steps the selection on the pressed
    /// next/previous keys and reads movement, turning and speed off the held
    /// keys. The gathered keys stay until `end_tick`.
    #[verifier::rlimit(40)]
    pub fn update(&mut self) -> (r: Steering)
        requires
            old(self).wf(),
        ensures
            final(self).wf(),
            final(self).shape == select_spec(
                old(self).shape as int,
                old(self).shape_count as int,
                old(self).keys_pressed@.contains(Key::Next),
                old(self).keys_pressed@.contains(Key::Previous),
            ),
            final(self).shape_count == old(self).shape_count,
            final(self).keys_down@ == old(self).keys_down@,
            final(self).keys_pressed@ == old(self).keys_pressed@,
            final(self).keys_released@ == old(self).keys_released@,
            r.direction@ == direction_spec(old(self).keys_down@),
            r.yaw == axis(
                old(self).keys_down@.contains(Key::TurnLeft),
                old(self).keys_down@.contains(Key::TurnRight),
            ),
            r.pitch == axis(
                old(self).keys_down@.contains(Key::LookUp),
                old(self).keys_down@.contains(Key::LookDown),
            ),
            r.speed == speed_spec(old(self).keys_down@),
    {
        if self.key_pressed(&Key::Next) {
            if self.shape == self.shape_count {
                self.shape = 0;
            } else {
                self.shape += 1;
            }
        }
        if self.key_pressed(&Key::Previous) {
            if self.shape == 0 {
                self.shape = self.shape_count;
            } else {
                self.shape -= 1;
            }
        }

        let mut dir = [0i64; 3];
        if self.key_down(&Key::Right) {
            dir[0] += 1;
        }
        if self.key_down(&Key::Left) {
            dir[0] -= 1;
        }
        if self.key_down(&Key::Rise) {
            dir[1] += 1;
        }
        if self.key_down(&Key::Sink) {
            dir[1] -= 1;
        }
        if self.key_down(&Key::Back) {
            dir[2] += 1;
        }
        if self.key_down(&Key::Forward) {
            dir[2] -= 1;
        }

        let mut yaw: i64 = 0;
        if self.key_down(&Key::TurnLeft) {
            yaw += 1;
        }
        if self.key_down(&Key::TurnRight) {
            yaw -= 1;
        }
        let mut pitch: i64 = 0;
        if self.key_down(&Key::LookUp) {
            pitch += 1;
        }
        if self.key_down(&Key::LookDown) {
            pitch -= 1;
        }

        let speed = if self.key_down(&Key::Sprint) {
            SPRINT_SPEED
        } else {
            WALK_SPEED
        };
        let direction = Vector(dir);
        assert(direction@ =~= direction_spec(self.keys_down@));
        Steering { direction, yaw, pitch, speed }
    }

    /// The shapes to draw, as the range `start..end` of their indices: all of
    /// them when the all-shapes slot is selected, else the selected one.
    pub fn drawn_shapes(&self) -> (r: (usize, usize))
        requires
            self.wf(),
        ensures
            self.shape == self.shape_count ==> r == (0usize, self.shape_count),
            self.shape < self.shape_count ==> r == (self.shape, (self.shape + 1) as usize),
    {
        if self.shape == self.shape_count {
            (0, self.shape_count)
        } else {
            (self.shape, self.shape + 1)
        }
    }

    /// Ends a tick: forgets the keys pressed and released during it. The held
    /// keys and the selection stay.
    pub fn end_tick(&mut self)
        ensures
            final(self).keys_down@ == old(self).keys_down@,
            final(self).keys_pressed@ == Set::<Key>::empty(),
            final(self).keys_released@ == Set::<Key>::empty(),
            final(self).shape == old(self).shape,
            final(self).shape_count == old(self).shape_count,
    {
        self.keys_pressed.clear();
        self.keys_released.clear();
    }
}

} // verus!
