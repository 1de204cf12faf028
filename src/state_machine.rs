//! The lighting scheme's state machine: it follows the display's power
//! events, remembers which controller drives the DRAM lights, and says on
//! each tick which controller to repaint and in which state. The colors of
//! each state are computed by the program that sends them.

use vstd::prelude::*;
use crate::protocol::{ControllerData, ControllerType};

verus! {

/// A change in the display's power state.
#[derive(Debug, Clone, Copy, PartialEq, Eq, Structural)]
pub enum Event {
    Off,
    On,
    Dimmed,
}

/// The lighting state.
#[derive(Debug, Clone, Copy, PartialEq, Eq, Structural)]
pub enum State {
    /// The display is on; `ticks` counts the ticks spent in this state.
    Normal { ticks: u32 },
    /// The display came back on: fading over `ticks_max` ticks.
    Wake { ticks: u32, ticks_max: u32 },
    /// The display is off or dimmed.
    Sleep,
}

/// Ticks that the fade from sleep to normal lasts.
pub const WAKE_TICKS: u32 = 5;

/// The tick counter after one more tick; it wraps after `u32::MAX`.
pub open spec fn next_tick(t: u32) -> u32 {
    if t == u32::MAX { 0 } else { (t + 1) as u32 }
}

/// The state that follows `s` on a tick that brought `event`.
pub open spec fn next_state(s: State, event: Option<Event>) -> State {
    match s {
        State::Normal { ticks } => match event {
            Some(Event::Off) | Some(Event::Dimmed) => State::Sleep,
            _ => State::Normal { ticks: next_tick(ticks) },
        },
        State::Sleep => match event {
            Some(Event::On) => State::Wake { ticks: 0, ticks_max: WAKE_TICKS },
            _ => State::Sleep,
        },
        State::Wake { ticks, ticks_max } => if ticks + 1 == ticks_max {
            State::Normal { ticks: 0 }
        } else {
            State::Wake { ticks: (ticks + 1) as u32, ticks_max }
        },
    }
}

/// A fade is always under way: it has not yet reached its length.
pub open spec fn state_wf(s: State) -> bool {
    s matches State::Wake { ticks, ticks_max } ==> ticks < ticks_max
}

/// The index of the first DRAM controller in `cs`, if there is one.
pub open spec fn first_dram(cs: Seq<ControllerData>) -> Option<u32> {
    if exists|i: int| 0 <= i < cs.len() && cs[i].ty == ControllerType::Dram {
        let i = choose|i: int|
            0 <= i < cs.len() && cs[i].ty == ControllerType::Dram && forall|j: int|
                0 <= j < i ==> cs[j].ty != ControllerType::Dram;
        Some(i as u32)
    } else {
        None
    }
}

pub struct StateMachine {
    /// Index of the DRAM light controller, if the server has one.
    pub dram_idx: Option<u32>,
    /// Current state.
    pub state: State,
}

impl StateMachine {
    pub open spec fn wf(&self) -> bool {
        state_wf(self.state)
    }

    /// A machine in the normal state, with no DRAM controller known yet.
    pub fn new() -> (r: StateMachine)
        ensures
            r.wf(),
            r.dram_idx is None,
            r.state == (State::Normal { ticks: 0 }),
    {
        StateMachine { dram_idx: None, state: State::Normal { ticks: 0 } }
    }

    /// Takes note of a new list of controllers: remembers the index of the
    /// first DRAM controller among them, or that there is none.
    pub fn controllers_updated(&mut self, controllers: &[ControllerData])
        requires
            controllers@.len() <= u32::MAX,
        ensures
            final(self).state == old(self).state,
            final(self).dram_idx == first_dram(controllers@),
    {
        let n: usize = controllers.len();
        let mut i: usize = 0;
        while i < n
            invariant
                n == controllers@.len(),
                n <= u32::MAX,
                self.state == old(self).state,
                i <= n,
                forall|j: int| 0 <= j < i ==> controllers@[j].ty != ControllerType::Dram,
            decreases n - i,
        {
            if controllers[i].ty == ControllerType::Dram {
                let ghost cs = controllers@;
                assert(cs[i as int].ty == ControllerType::Dram);
                let ghost k = choose|k: int|
                    0 <= k < cs.len() && cs[k].ty == ControllerType::Dram && forall|j: int|
                        0 <= j < k ==> cs[j].ty != ControllerType::Dram;
                assert(k == i) by {
                    if k < i {
                        assert(cs[k].ty != ControllerType::Dram);
                    } else if k > i {
                        assert(cs[i as int].ty != ControllerType::Dram);
                    }
                }
                self.dram_idx = Some(i as u32);
                return;
            }
            i = i + 1;
        }
        self.dram_idx = None;
    }

    /// Steps the machine on a tick that brought `event`. Returns the index of
    /// the DRAM controller with the new state, to be painted, or `None` when
    /// no DRAM controller is known.
    pub fn update(&mut self, event: Option<Event>) -> (r: Option<(u32, State)>)
        requires
            old(self).wf(),
        ensures
            final(self).wf(),
            final(self).dram_idx == old(self).dram_idx,
            final(self).state == next_state(old(self).state, event),
            r == (match final(self).dram_idx {
                Some(idx) => Some((idx, final(self).state)),
                None => None,
            }),
    {
        let next = match self.state {
            State::Normal { ticks } => match event {
                Some(Event::Off) | Some(Event::Dimmed) => State::Sleep,
                _ => State::Normal { ticks: if ticks == u32::MAX { 0 } else { ticks + 1 } },
            },
            State::Sleep => match event {
                Some(Event::On) => State::Wake { ticks: 0, ticks_max: WAKE_TICKS },
                _ => State::Sleep,
            },
            State::Wake { ticks, ticks_max } => if ticks + 1 == ticks_max {
                State::Normal { ticks: 0 }
            } else {
                State::Wake { ticks: ticks + 1, ticks_max }
            },
        };
        self.state = next;
        match self.dram_idx {
            Some(idx) => Some((idx, next)),
            None => None,
        }
    }
}

} // verus!
