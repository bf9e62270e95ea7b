//! The three-LED display state machine: which pattern is shown and how fast.
use vstd::prelude::*;

verus! {

/// What the three user LEDs show.
#[derive(Clone, Copy, Debug, PartialEq, Eq, Structural)]
pub enum LedState {
    AllOff,
    SlowBlink,
    FastBlink,
    /// Running lights: LD1 -> LD2 -> LD3 in sequence.
    Chase,
    AllOn,
}

/// Position of a state in the button cycle AllOff -> SlowBlink -> FastBlink -> Chase -> AllOn.
pub open spec fn cycle_index(s: LedState) -> nat {
    match s {
        LedState::AllOff => 0,
        LedState::SlowBlink => 1,
        LedState::FastBlink => 2,
        LedState::Chase => 3,
        LedState::AllOn => 4,
    }
}

/// The state at a position of the button cycle (taken modulo its length).
pub open spec fn state_at(i: nat) -> LedState {
    let k = i % 5;
    if k == 0 {
        LedState::AllOff
    } else if k == 1 {
        LedState::SlowBlink
    } else if k == 2 {
        LedState::FastBlink
    } else if k == 3 {
        LedState::Chase
    } else {
        LedState::AllOn
    }
}

/// The state reached from `s` after `n` button presses.
pub open spec fn after_presses(s: LedState, n: nat) -> LedState
    decreases n,
{
    if n == 0 {
        s
    } else {
        spec_next(after_presses(s, (n - 1) as nat))
    }
}

pub open spec fn spec_next(s: LedState) -> LedState {
    state_at(cycle_index(s) + 1)
}

/// Half-period of the pattern in milliseconds; 0 for the static patterns.
pub open spec fn spec_period_ms(s: LedState) -> u64 {
    match s {
        LedState::AllOff => 0,
        LedState::SlowBlink => 500,
        LedState::FastBlink => 100,
        LedState::Chase => 150,
        LedState::AllOn => 0,
    }
}

impl LedState {
    /// The state a button press moves to.
    pub fn next(self) -> (res: Self)
        ensures
            res == spec_next(self),
            cycle_index(res) == (cycle_index(self) + 1) % 5,
    {
        match self {
            LedState::AllOff => LedState::SlowBlink,
            LedState::SlowBlink => LedState::FastBlink,
            LedState::FastBlink => LedState::Chase,
            LedState::Chase => LedState::AllOn,
            LedState::AllOn => LedState::AllOff,
        }
    }

    /// Half-period for the blink states (ms); 0 means a static pattern (AllOff/AllOn).
    /// For Chase it is the dwell time of one step.
    pub fn period_ms(self) -> (res: u64)
        ensures
            res == spec_period_ms(self),
    {
        match self {
            LedState::AllOff => 0,
            LedState::SlowBlink => 500,
            LedState::FastBlink => 100,
            LedState::Chase => 150,
            LedState::AllOn => 0,
        }
    }
}

/// Pressing the button `n` times moves `n` places along the cycle.
proof fn lemma_after_presses(s: LedState, n: nat)
    ensures
        cycle_index(after_presses(s, n)) == (cycle_index(s) + n) % 5,
        after_presses(s, n) == state_at(cycle_index(s) + n),
    decreases n,
{
    if n > 0 {
        lemma_after_presses(s, (n - 1) as nat);
    }
}

/// Five presses bring every state back to itself, and fewer presses never do:
/// the button visits all five patterns before repeating.
pub proof fn law_button_cycle(s: LedState, n: nat)
    requires
        0 < n,
    ensures
        after_presses(s, n) == s <==> n % 5 == 0,
{
    lemma_after_presses(s, n);
}

/// Only the two static patterns have a zero period.
pub proof fn law_static_iff_zero_period(s: LedState)
    ensures
        spec_period_ms(s) == 0 <==> (s == LedState::AllOff || s == LedState::AllOn),
{
}

/// What the LED task waits for after setting the LEDs.
#[derive(Clone, Copy, Debug, PartialEq, Eq, Structural)]
pub enum LedWait {
    /// Until the state-changed signal fires.
    Changed,
    /// Until the state-changed signal fires or this many milliseconds pass.
    ChangedOrTimeout(u64),
}

/// One step of the LED task: the levels of LD1, LD2, LD3 and what to wait for.
#[derive(Clone, Copy, Debug, PartialEq, Eq)]
pub struct LedAction {
    pub leds: [bool; 3],
    pub wait: LedWait,
}

/// The LED task's own state between steps.
pub struct LedTask {
    /// Which LED the Chase animation lights next (0 = LD1, 1 = LD2, 2 = LD3);
    /// kept across states.
    chase_idx: usize,
    /// The half-period of a blink whose on-half ran to its end: the off-half
    /// comes next.
    off_half: Option<u64>,
    /// The half-period of the on-half just shown, while its wait runs.
    on_half: Option<u64>,
}

/// The task state as plain values: (chase index, pending off-half, running on-half).
pub struct LedTaskView {
    pub chase_idx: nat,
    pub off_half: Option<u64>,
    pub on_half: Option<u64>,
}

impl View for LedTask {
    type V = LedTaskView;

    closed spec fn view(&self) -> LedTaskView {
        LedTaskView {
            chase_idx: self.chase_idx as nat,
            off_half: self.off_half,
            on_half: self.on_half,
        }
    }
}

/// The levels with only LED `k` lit.
pub open spec fn one_lit(k: nat) -> Seq<bool> {
    seq![k == 0, k == 1, k == 2]
}

/// The levels with all three LEDs at `on`.
pub open spec fn all_at(on: bool) -> Seq<bool> {
    seq![on, on, on]
}

/// The action of one step of the LED task, from its state `t` and the display
/// state `s` read at the start of the step.
pub open spec fn spec_led_action(t: LedTaskView, s: LedState) -> (Seq<bool>, LedWait) {
    match t.off_half {
        Some(p) => (all_at(false), LedWait::ChangedOrTimeout(p)),
        None => if s == LedState::Chase {
            (one_lit(t.chase_idx), LedWait::ChangedOrTimeout(spec_period_ms(s)))
        } else if spec_period_ms(s) == 0 {
            (all_at(s == LedState::AllOn), LedWait::Changed)
        } else {
            (all_at(true), LedWait::ChangedOrTimeout(spec_period_ms(s)))
        },
    }
}

/// The task state after a step for the display state `s`.
pub open spec fn spec_led_after_step(t: LedTaskView, s: LedState) -> LedTaskView {
    LedTaskView {
        chase_idx: if t.off_half is None && s == LedState::Chase {
            (t.chase_idx + 1) % 3
        } else {
            t.chase_idx
        },
        off_half: None,
        on_half: if t.off_half is None && s != LedState::Chase && spec_period_ms(s) != 0 {
            Some(spec_period_ms(s))
        } else {
            None
        },
    }
}

/// The task state after the wait of a step ended (`changed` when the
/// state-changed signal fired).
pub open spec fn spec_led_after_wait(t: LedTaskView, changed: bool) -> LedTaskView {
    LedTaskView {
        chase_idx: t.chase_idx,
        off_half: if !changed {
            t.on_half
        } else {
            None
        },
        on_half: None,
    }
}

/// One whole step: the step for `s`, then its wait ending as `changed` says.
pub open spec fn spec_led_cycle(t: LedTaskView, s: LedState, changed: bool) -> LedTaskView {
    spec_led_after_wait(spec_led_after_step(t, s), changed)
}

impl LedTask {
    #[verifier::type_invariant]
    spec fn inv(self) -> bool {
        self.chase_idx < 3
    }

    /// The task at power-up: Chase starts at LD1, no blink in progress.
    pub fn new() -> (res: Self)
        ensures
            res@.chase_idx == 0,
            res@.off_half is None,
            res@.on_half is None,
    {
        LedTask { chase_idx: 0, off_half: None, on_half: None }
    }

    /// Decide the LED levels and the wait for the state `s` read now.
    /// Running lights light exactly one LED and advance one place per step;
    /// the static states (AllOff, AllOn) wait only for a change; a blink shows
    /// its on-half, and after an on-half that ran to its end, the off-half of
    /// the same period, whatever the state is by then.
    pub fn step(&mut self, s: LedState) -> (res: LedAction)
        ensures
            (res.leds@, res.wait) == spec_led_action(old(self)@, s),
            old(self)@.chase_idx < 3,
            final(self)@.chase_idx < 3,
            final(self)@.off_half is None,
            final(self)@ == spec_led_after_step(old(self)@, s),
            final(self)@.chase_idx == (if old(self)@.off_half is None && s == LedState::Chase {
                (old(self)@.chase_idx + 1) % 3
            } else {
                old(self)@.chase_idx
            }),
            final(self)@.on_half == (if old(self)@.off_half is None && s != LedState::Chase
                && spec_period_ms(s) != 0 {
                Some(spec_period_ms(s))
            } else {
                None
            }),
    {
        proof {
            use_type_invariant(&*self);
        }
        if let Some(p) = self.off_half {
            self.off_half = None;
            self.on_half = None;
            let res = LedAction { leds: [false, false, false], wait: LedWait::ChangedOrTimeout(p) };
            assert(res.leds@ =~= all_at(false));
            return res;
        }
        self.on_half = None;
        let period = s.period_ms();
        if s == LedState::Chase {
            let k = self.chase_idx;
            let leds = [k == 0, k == 1, k >= 2];
            self.chase_idx = (k + 1) % 3;
            assert(leds@ =~= one_lit(k as nat));
            return LedAction { leds, wait: LedWait::ChangedOrTimeout(period) };
        }
        if period == 0 {
            let on = s == LedState::AllOn;
            let leds = [on, on, on];
            assert(leds@ =~= all_at(on));
            return LedAction { leds, wait: LedWait::Changed };
        }
        self.on_half = Some(period);
        let leds = [true, true, true];
        assert(leds@ =~= all_at(true));
        LedAction { leds, wait: LedWait::ChangedOrTimeout(period) }
    }

    /// Report how the wait of the last step ended: `changed` when the
    /// state-changed signal fired, otherwise the timeout elapsed. Only a blink
    /// on-half that timed out leads to an off-half.
    pub fn wait_ended(&mut self, changed: bool)
        ensures
            final(self)@ == spec_led_after_wait(old(self)@, changed),
            final(self)@.chase_idx == old(self)@.chase_idx,
            final(self)@.on_half is None,
            final(self)@.off_half == (if !changed {
                old(self)@.on_half
            } else {
                None
            }),
    {
        proof {
            use_type_invariant(&*self);
        }
        if !changed {
            self.off_half = self.on_half;
        } else {
            self.off_half = None;
        }
        self.on_half = None;
    }
}

/// In the running-lights state exactly one LED is lit, and three steps in a
/// row light LD1, LD2 and LD3 each once.
pub proof fn law_chase_lights_one(k: nat)
    requires
        k < 3,
    ensures
        one_lit(k).len() == 3,
        forall|j: int| 0 <= j < 3 ==> (one_lit(k)[j] <==> j == k),
        (k + 1) % 3 != k,
        (k + 2) % 3 != k,
        (k + 1) % 3 != (k + 2) % 3,
{
}

/// A static pattern waits only for a change (no polling), and shows all LEDs
/// lit for AllOn and all dark for AllOff.
pub proof fn law_static_states(t: LedTaskView, s: LedState)
    requires
        t.off_half is None,
        s == LedState::AllOff || s == LedState::AllOn,
    ensures
        spec_led_action(t, s).1 == LedWait::Changed,
        spec_led_action(t, s).0 == all_at(s == LedState::AllOn),
{
}

/// The button steps through the states in the order AllOff, SlowBlink,
/// FastBlink, Chase, AllOn and back to AllOff.
pub proof fn law_button_order()
    ensures
        after_presses(LedState::AllOff, 1) == LedState::SlowBlink,
        after_presses(LedState::AllOff, 2) == LedState::FastBlink,
        after_presses(LedState::AllOff, 3) == LedState::Chase,
        after_presses(LedState::AllOff, 4) == LedState::AllOn,
        after_presses(LedState::AllOff, 5) == LedState::AllOff,
{
    reveal_with_fuel(after_presses, 6);
}

/// After an on-half that ran to its end, the next step is the off-half: all
/// three LEDs dark for the same time, whatever the state is now.
pub proof fn law_off_half_is_dark(t: LedTaskView, s: LedState, p: u64)
    requires
        t.off_half == Some(p),
    ensures
        spec_led_action(t, s).0 == seq![false, false, false],
        spec_led_action(t, s).1 == LedWait::ChangedOrTimeout(p),
{
}

/// A blink state starts with all three LEDs lit for its half-period: 500 ms
/// for SlowBlink, 100 ms for FastBlink.
pub proof fn law_blink_on_half(t: LedTaskView, s: LedState)
    requires
        t.off_half is None,
        s == LedState::SlowBlink || s == LedState::FastBlink,
    ensures
        spec_led_action(t, s).0 == seq![true, true, true],
        spec_led_action(t, s).1 == LedWait::ChangedOrTimeout(
            if s == LedState::SlowBlink {
                500u64
            } else {
                100u64
            },
        ),
{
}

/// Running lights light the LED the task is at and no other, 150 ms a step.
pub proof fn law_chase_step(t: LedTaskView)
    requires
        t.off_half is None,
        t.chase_idx < 3,
    ensures
        spec_led_action(t, LedState::Chase).0.len() == 3,
        forall|j: int|
            0 <= j < 3 ==> (spec_led_action(t, LedState::Chase).0[j] <==> j == t.chase_idx),
        spec_led_action(t, LedState::Chase).1 == LedWait::ChangedOrTimeout(150),
{
}

/// AllOn lights all three LEDs and AllOff none, and both wait only for a change.
pub proof fn law_static_patterns(t: LedTaskView)
    requires
        t.off_half is None,
    ensures
        spec_led_action(t, LedState::AllOn) == (seq![true, true, true], LedWait::Changed),
        spec_led_action(t, LedState::AllOff) == (seq![false, false, false], LedWait::Changed),
{
}

/// Running lights go round LD1, LD2, LD3 and back to LD1, one LED a step,
/// however each step's wait ends.
pub proof fn law_chase_goes_round(t0: LedTaskView, c0: bool, c1: bool, c2: bool)
    requires
        t0.chase_idx == 0,
        t0.off_half is None,
    ensures
        ({
            let t1 = spec_led_cycle(t0, LedState::Chase, c0);
            let t2 = spec_led_cycle(t1, LedState::Chase, c1);
            let t3 = spec_led_cycle(t2, LedState::Chase, c2);
            &&& spec_led_action(t0, LedState::Chase).0 == seq![true, false, false]
            &&& spec_led_action(t1, LedState::Chase).0 == seq![false, true, false]
            &&& spec_led_action(t2, LedState::Chase).0 == seq![false, false, true]
            &&& spec_led_action(t3, LedState::Chase).0 == seq![true, false, false]
        }),
{
}

/// A blink alternates: its on-half (all lit) is followed, when the half-period
/// runs out, by an off-half (all dark) of the same length, and then by the
/// on-half again; a change during the on-half starts over from the state then
/// read, with no off-half in between.
pub proof fn law_blink_alternates(t0: LedTaskView, s: LedState, s2: LedState)
    requires
        t0.off_half is None,
        s == LedState::SlowBlink || s == LedState::FastBlink,
    ensures
        ({
            let p = if s == LedState::SlowBlink {
                500u64
            } else {
                100u64
            };
            let t1 = spec_led_cycle(t0, s, false);
            let t2 = spec_led_cycle(t1, s2, false);
            &&& spec_led_action(t0, s) == (seq![true, true, true], LedWait::ChangedOrTimeout(p))
            &&& spec_led_action(t1, s2) == (seq![false, false, false], LedWait::ChangedOrTimeout(p))
            &&& spec_led_action(t2, s) == (seq![true, true, true], LedWait::ChangedOrTimeout(p))
            &&& spec_led_action(spec_led_cycle(t0, s, true), s2) == spec_led_action(t0, s2)
        }),
{
}

} // verus!
