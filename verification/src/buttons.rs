//! Pressed-button tracking with edge detection: a button "just pressed" on a
//! tick is one that is down on that tick and was up on the previous one.

use vstd::prelude::*;

verus! {

// Gamepad button codes.
pub const BTN_SOUTH: u32 = 0;
pub const BTN_EAST: u32 = 1;
pub const BTN_NORTH: u32 = 2;
pub const BTN_WEST: u32 = 3;
pub const BTN_SELECT: u32 = 4;
pub const BTN_START: u32 = 5;
pub const BTN_DPAD_UP: u32 = 6;
pub const BTN_DPAD_DOWN: u32 = 7;
pub const BTN_DPAD_LEFT: u32 = 8;
pub const BTN_DPAD_RIGHT: u32 = 9;

/// A rising edge: down now, up before.
pub open spec fn spec_edge(was_pressed: bool, now_pressed: bool) -> bool {
    now_pressed && !was_pressed
}

/// Whether a vector of button codes contains `code`.
pub fn codes_contain(v: &Vec<u32>, code: u32) -> (r: bool)
    ensures
        r == v@.contains(code),
{
    let mut i: usize = 0;
    while i < v.len()
        invariant
            i <= v@.len(),
            forall|b: int| 0 <= b < i ==> v@[b] != code,
        decreases v@.len() - i,
    {
        if v[i] == code {
            return true;
        }
        i = i + 1;
    }
    false
}

/// The buttons or keys of one input source that are currently down, and those
/// that went down this tick.
#[derive(Clone, Debug)]
pub struct ButtonStates {
    pressed: Vec<u32>,
    just_pressed: Vec<u32>,
}

impl ButtonStates {
    /// Whether the button is currently down.
    pub closed spec fn spec_pressed(&self, code: u32) -> bool {
        self.pressed@.contains(code)
    }

    /// Whether the button went down this tick.
    pub closed spec fn spec_just_pressed(&self, code: u32) -> bool {
        self.just_pressed@.contains(code)
    }

    /// No buttons at all.
    pub fn new() -> (r: ButtonStates)
        ensures
            forall|k: u32| !#[trigger] r.spec_pressed(k),
            forall|k: u32| !#[trigger] r.spec_just_pressed(k),
    {
        ButtonStates { pressed: Vec::new(), just_pressed: Vec::new() }
    }

    pub fn pressed(&self, code: u32) -> (r: bool)
        ensures
            r == self.spec_pressed(code),
    {
        codes_contain(&self.pressed, code)
    }

    pub fn just_pressed(&self, code: u32) -> (r: bool)
        ensures
            r == self.spec_just_pressed(code),
    {
        codes_contain(&self.just_pressed, code)
    }

    /// Move to the next tick, given the buttons now down: a button is "just
    /// pressed" afterward exactly when it is down now and was not before.
    pub fn advance(&mut self, now: &Vec<u32>)
        ensures
            forall|k: u32| #[trigger] final(self).spec_pressed(k) == now@.contains(k),
            forall|k: u32|
                #[trigger] final(self).spec_just_pressed(k) == spec_edge(
                    old(self).spec_pressed(k),
                    now@.contains(k),
                ),
    {
        let mut just: Vec<u32> = Vec::new();
        let mut fresh: Vec<u32> = Vec::new();
        let mut i: usize = 0;
        while i < now.len()
            invariant
                i <= now@.len(),
                fresh@ == now@.subrange(0, i as int),
                forall|a: int|
                    0 <= a < just@.len() ==> exists|b: int|
                        0 <= b < i && now@[b] == #[trigger] just@[a] && !self.pressed@.contains(
                            just@[a],
                        ),
                forall|b: int|
                    0 <= b < i && !self.pressed@.contains(#[trigger] now@[b]) ==> just@.contains(
                        now@[b],
                    ),
        decreases now@.len() - i,
        {
            let code = now[i];
            let ghost pre_just = just@;
            let pushed = !codes_contain(&self.pressed, code);
            if pushed {
                just.push(code);
            }
            fresh.push(code);
            let ghost i_prev = i as int;
            i = i + 1;
            proof {
                assert(fresh@ =~= now@.subrange(0, i as int));
                assert forall|a: int| 0 <= a < just@.len() implies exists|b: int|
                    0 <= b < i && now@[b] == #[trigger] just@[a] && !self.pressed@.contains(
                        just@[a],
                    ) by {
                    if a < pre_just.len() {
                        assert(just@[a] == pre_just[a]);
                        let b = choose|b: int|
                            0 <= b < i_prev && now@[b] == pre_just[a] && !self.pressed@.contains(
                                pre_just[a],
                            );
                        assert(0 <= b < i && now@[b] == just@[a]);
                    } else {
                        assert(just@[a] == code);
                        assert(now@[i_prev] == just@[a]);
                    }
                }
                assert forall|b: int|
                    0 <= b < i && !self.pressed@.contains(#[trigger] now@[b]) implies just@.contains(
                        now@[b],
                    ) by {
                    if b < i_prev {
                        assert(pre_just.contains(now@[b]));
                        let a = choose|a: int| 0 <= a < pre_just.len() && pre_just[a] == now@[b];
                        assert(just@[a] == now@[b]);
                    } else {
                        assert(pushed);
                        assert(just@[just@.len() - 1] == now@[b]);
                    }
                }
            }
        }
        proof {
            assert(fresh@ =~= now@);
        }
        let ghost old_pressed = self.pressed@;
        self.pressed = fresh;
        self.just_pressed = just;
        proof {
            assert forall|k: u32| #[trigger] self.spec_just_pressed(k) == spec_edge(
                old_pressed.contains(k),
                now@.contains(k),
            ) by {
                if self.just_pressed@.contains(k) {
                    let a = choose|a: int|
                        0 <= a < self.just_pressed@.len() && self.just_pressed@[a] == k;
                    let b = choose|b: int|
                        0 <= b < now@.len() && now@[b] == self.just_pressed@[a]
                            && !old_pressed.contains(self.just_pressed@[a]);
                    assert(now@.contains(k));
                }
                if now@.contains(k) && !old_pressed.contains(k) {
                    let b = choose|b: int| 0 <= b < now@.len() && now@[b] == k;
                    assert(self.just_pressed@.contains(k));
                }
            }
        }
    }
}

/// How many rising edges a button shows over a run of ticks, given whether it
/// was down before the run. `presses[i]` is whether the button is down on
/// tick `i`.
pub open spec fn spec_edge_count(initially: bool, presses: Seq<bool>) -> int
    decreases presses.len(),
{
    if presses.len() == 0 {
        0
    } else {
        let prev = if presses.len() == 1 {
            initially
        } else {
            presses[presses.len() - 2]
        };
        spec_edge_count(initially, presses.drop_last()) + if spec_edge(prev, presses.last()) {
            1int
        } else {
            0int
        }
    }
}

/// Edge-triggered semantics: a button pressed and then held for `n`
/// consecutive ticks shows exactly one rising edge, on the first tick.
pub proof fn lemma_held_button_single_edge(n: nat)
    requires
        n >= 1,
    ensures
        spec_edge_count(false, Seq::new(n, |i: int| true)) == 1,
    decreases n,
{
    let s = Seq::new(n, |i: int| true);
    if n == 1 {
        assert(s.drop_last() =~= Seq::<bool>::empty());
        assert(spec_edge_count(false, s.drop_last()) == 0);
        assert(s.last() == true);
        assert(spec_edge(false, s.last()));
        assert(spec_edge_count(false, s) == 1);
    } else {
        lemma_held_button_single_edge((n - 1) as nat);
        assert(s.drop_last() =~= Seq::new((n - 1) as nat, |i: int| true));
        assert(spec_edge_count(false, s.drop_last()) == 1);
        assert(s[n - 2] == true);
        assert(!spec_edge(s[n - 2], s.last()));
        assert(spec_edge_count(false, s) == spec_edge_count(false, s.drop_last()));
    }
}

} // verus!
