//! B1 USER button gestures: a short press cycles the LED state machine, a
//! hold of at least 3 s reboots into the ROM USB-DFU loader.
//!
//! The button task runs the machine below: it performs the action of the
//! current phase (wait for an edge, sleep, read the level, ...) and feeds the
//! outcome back as an event. Presses drive the line HIGH; each edge gets a
//! 50 ms debounce.
use vstd::prelude::*;

verus! {

/// Debounce time after each edge (ms).
pub const DEBOUNCE_MS: u64 = 50;
/// How long USER must stay held to trigger a DFU reboot (ms).
pub const DFU_HOLD_MS: u64 = 3000;

/// Where the button task is in handling one press.
#[derive(Clone, Copy, Debug, PartialEq, Eq, Structural)]
pub enum ButtonPhase {
    /// Waiting for a press.
    Idle,
    /// Debouncing the press.
    PressDebounce,
    /// Is the button still high after the debounce? If not it was a bounce.
    CheckPressed,
    /// Was it already released during the debounce?
    CheckReleased,
    /// Racing the hold time against the release.
    Holding,
    /// The hold time ran out: is the button still held?
    CheckHeld,
    /// Released right at the boundary: wait for the falling edge.
    WaitRelease,
    /// Debouncing the release.
    ReleaseDebounce,
    /// A short press is complete: advance the LED state.
    CycleLeds,
    /// A long hold: reboot into USB DFU (never returns).
    EnterDfu,
}

/// What the task does in a phase.
#[derive(Clone, Copy, Debug, PartialEq, Eq, Structural)]
pub enum ButtonAction {
    WaitRisingEdge,
    Sleep(u64),
    ReadLevel,
    WaitFallingEdgeOrTimeout(u64),
    WaitFallingEdge,
    CycleLeds,
    RebootToDfu,
}

/// How the action of a phase ended.
#[derive(Clone, Copy, Debug, PartialEq, Eq, Structural)]
pub enum ButtonEvent {
    /// The awaited edge came.
    Edge,
    /// The sleep or the timeout elapsed.
    Elapsed,
    /// The level read: `true` for high (pressed).
    Level(bool),
    /// The LED state was advanced.
    Done,
}

pub open spec fn spec_action(p: ButtonPhase) -> ButtonAction {
    match p {
        ButtonPhase::Idle => ButtonAction::WaitRisingEdge,
        ButtonPhase::PressDebounce => ButtonAction::Sleep(DEBOUNCE_MS),
        ButtonPhase::CheckPressed => ButtonAction::ReadLevel,
        ButtonPhase::CheckReleased => ButtonAction::ReadLevel,
        ButtonPhase::Holding => ButtonAction::WaitFallingEdgeOrTimeout(DFU_HOLD_MS),
        ButtonPhase::CheckHeld => ButtonAction::ReadLevel,
        ButtonPhase::WaitRelease => ButtonAction::WaitFallingEdge,
        ButtonPhase::ReleaseDebounce => ButtonAction::Sleep(DEBOUNCE_MS),
        ButtonPhase::CycleLeds => ButtonAction::CycleLeds,
        ButtonPhase::EnterDfu => ButtonAction::RebootToDfu,
    }
}

/// The phase after `e` ended the action of `p`; an event that the action of
/// `p` cannot produce leaves the phase as it is.
pub open spec fn spec_on_event(p: ButtonPhase, e: ButtonEvent) -> ButtonPhase {
    match (p, e) {
        (ButtonPhase::Idle, ButtonEvent::Edge) => ButtonPhase::PressDebounce,
        (ButtonPhase::PressDebounce, ButtonEvent::Elapsed) => ButtonPhase::CheckPressed,
        (ButtonPhase::CheckPressed, ButtonEvent::Level(high)) => if high {
            ButtonPhase::CheckReleased
        } else {
            ButtonPhase::Idle
        },
        (ButtonPhase::CheckReleased, ButtonEvent::Level(high)) => if high {
            ButtonPhase::Holding
        } else {
            ButtonPhase::ReleaseDebounce
        },
        (ButtonPhase::Holding, ButtonEvent::Edge) => ButtonPhase::ReleaseDebounce,
        (ButtonPhase::Holding, ButtonEvent::Elapsed) => ButtonPhase::CheckHeld,
        (ButtonPhase::CheckHeld, ButtonEvent::Level(high)) => if high {
            ButtonPhase::EnterDfu
        } else {
            ButtonPhase::WaitRelease
        },
        (ButtonPhase::WaitRelease, ButtonEvent::Edge) => ButtonPhase::ReleaseDebounce,
        (ButtonPhase::ReleaseDebounce, ButtonEvent::Elapsed) => ButtonPhase::CycleLeds,
        (ButtonPhase::CycleLeds, ButtonEvent::Done) => ButtonPhase::Idle,
        _ => p,
    }
}

impl ButtonPhase {
    /// The action to perform in this phase.
    pub fn action(self) -> (res: ButtonAction)
        ensures
            res == spec_action(self),
    {
        match self {
            ButtonPhase::Idle => ButtonAction::WaitRisingEdge,
            ButtonPhase::PressDebounce => ButtonAction::Sleep(DEBOUNCE_MS),
            ButtonPhase::CheckPressed => ButtonAction::ReadLevel,
            ButtonPhase::CheckReleased => ButtonAction::ReadLevel,
            ButtonPhase::Holding => ButtonAction::WaitFallingEdgeOrTimeout(DFU_HOLD_MS),
            ButtonPhase::CheckHeld => ButtonAction::ReadLevel,
            ButtonPhase::WaitRelease => ButtonAction::WaitFallingEdge,
            ButtonPhase::ReleaseDebounce => ButtonAction::Sleep(DEBOUNCE_MS),
            ButtonPhase::CycleLeds => ButtonAction::CycleLeds,
            ButtonPhase::EnterDfu => ButtonAction::RebootToDfu,
        }
    }

    /// The phase that follows when `e` ended this phase's action.
    pub fn on_event(self, e: ButtonEvent) -> (res: ButtonPhase)
        ensures
            res == spec_on_event(self, e),
    {
        match (self, e) {
            (ButtonPhase::Idle, ButtonEvent::Edge) => ButtonPhase::PressDebounce,
            (ButtonPhase::PressDebounce, ButtonEvent::Elapsed) => ButtonPhase::CheckPressed,
            (ButtonPhase::CheckPressed, ButtonEvent::Level(high)) => if high {
                ButtonPhase::CheckReleased
            } else {
                ButtonPhase::Idle
            },
            (ButtonPhase::CheckReleased, ButtonEvent::Level(high)) => if high {
                ButtonPhase::Holding
            } else {
                ButtonPhase::ReleaseDebounce
            },
            (ButtonPhase::Holding, ButtonEvent::Edge) => ButtonPhase::ReleaseDebounce,
            (ButtonPhase::Holding, ButtonEvent::Elapsed) => ButtonPhase::CheckHeld,
            (ButtonPhase::CheckHeld, ButtonEvent::Level(high)) => if high {
                ButtonPhase::EnterDfu
            } else {
                ButtonPhase::WaitRelease
            },
            (ButtonPhase::WaitRelease, ButtonEvent::Edge) => ButtonPhase::ReleaseDebounce,
            (ButtonPhase::ReleaseDebounce, ButtonEvent::Elapsed) => ButtonPhase::CycleLeds,
            (ButtonPhase::CycleLeds, ButtonEvent::Done) => ButtonPhase::Idle,
            _ => self,
        }
    }
}

/// The DFU reboot comes only from a button still read high once the full
/// hold time has run out.
pub proof fn law_dfu_only_after_full_hold(p: ButtonPhase, e: ButtonEvent)
    requires
        p != ButtonPhase::EnterDfu,
        spec_on_event(p, e) == ButtonPhase::EnterDfu,
    ensures
        p == ButtonPhase::CheckHeld,
        e == ButtonEvent::Level(true),
{
}

/// The LEDs advance only after a debounced release, and once they did the
/// task waits for the next press.
pub proof fn law_cycle_after_release(p: ButtonPhase, e: ButtonEvent)
    ensures
        (p != ButtonPhase::CycleLeds && spec_on_event(p, e) == ButtonPhase::CycleLeds) ==> (p
            == ButtonPhase::ReleaseDebounce && e == ButtonEvent::Elapsed),
        spec_on_event(ButtonPhase::CycleLeds, ButtonEvent::Done) == ButtonPhase::Idle,
{
}

/// A bounce (button low again after the press debounce) is ignored: back to
/// waiting, with no LED change and no DFU.
pub proof fn law_bounce_ignored()
    ensures
        spec_on_event(ButtonPhase::CheckPressed, ButtonEvent::Level(false)) == ButtonPhase::Idle,
{
}

/// The events an action can end with.
pub open spec fn can_end_with(a: ButtonAction, e: ButtonEvent) -> bool {
    match a {
        ButtonAction::WaitRisingEdge => e == ButtonEvent::Edge,
        ButtonAction::Sleep(_) => e == ButtonEvent::Elapsed,
        ButtonAction::ReadLevel => e is Level,
        ButtonAction::WaitFallingEdgeOrTimeout(_) => e == ButtonEvent::Edge || e
            == ButtonEvent::Elapsed,
        ButtonAction::WaitFallingEdge => e == ButtonEvent::Edge,
        ButtonAction::CycleLeds => e == ButtonEvent::Done,
        ButtonAction::RebootToDfu => false,
    }
}

/// The task never gets stuck: in every phase but the DFU reboot, each way the
/// phase's action can end moves it to another phase, and the DFU reboot is
/// the one action that does not come back.
pub proof fn law_every_outcome_moves_on(p: ButtonPhase, e: ButtonEvent)
    requires
        p != ButtonPhase::EnterDfu,
        can_end_with(spec_action(p), e),
    ensures
        spec_on_event(p, e) != p,
        spec_action(p) != ButtonAction::RebootToDfu,
{
}

/// The timed waits are the 50 ms debounce and the 3 s hold.
pub proof fn law_wait_times(p: ButtonPhase)
    ensures
        spec_action(p) matches ButtonAction::Sleep(ms) ==> ms == 50,
        spec_action(p) matches ButtonAction::WaitFallingEdgeOrTimeout(ms) ==> ms == 3000,
{
}

/// A press held past the 3 s hold and still high ends in the DFU reboot; a
/// press released before it ends in an LED step.
pub proof fn law_gestures()
    ensures
        ({
            let p1 = spec_on_event(ButtonPhase::Idle, ButtonEvent::Edge);
            let p2 = spec_on_event(p1, ButtonEvent::Elapsed);
            let p3 = spec_on_event(p2, ButtonEvent::Level(true));
            let p4 = spec_on_event(p3, ButtonEvent::Level(true));
            let p5 = spec_on_event(p4, ButtonEvent::Elapsed);
            &&& spec_action(p5) == ButtonAction::ReadLevel
            &&& spec_action(spec_on_event(p5, ButtonEvent::Level(true)))
                == ButtonAction::RebootToDfu
            &&& spec_action(spec_on_event(spec_on_event(p4, ButtonEvent::Edge), ButtonEvent::Elapsed))
                == ButtonAction::CycleLeds
        }),
{
}

} // verus!
