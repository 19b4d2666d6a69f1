//! The render loop driver as a state machine: the host delivers window events
//! with the current time of a monotonic clock, and the driver answers each one
//! with the action to perform on the renderer.
use vstd::prelude::*;

use crate::bridge::{Location, ResolutionError};

verus! {

#[derive(PartialEq, Eq, Structural, Debug, Clone, Copy)]
pub enum MouseButton {
    Left,
    Right,
    Middle,
    Other,
}

/// The events that the host delivers to the loop.
#[derive(PartialEq, Eq, Structural, Debug, Clone, Copy)]
pub enum WindowEvent {
    /// The host is about to wait for new events.
    AboutToWait,
    /// The surface asks for a new frame.
    RedrawRequested,
    /// The surface has new dimensions.
    Resized { width: u32, height: u32 },
    /// A pointer button changed state.
    MouseInput { pressed: bool, button: MouseButton },
    /// The surface became hidden (`true`) or visible again (`false`).
    Occluded(bool),
    /// Any other window event; the host keeps it and forwards it as it is.
    Other,
}

#[derive(PartialEq, Eq, Structural, Debug, Clone, Copy)]
pub enum LoopState {
    /// No surface is bound yet.
    Unbound,
    /// Bound to a surface since `start_ms`; `redraws` frames were rendered
    /// (the count stops at `u64::MAX`).
    Bound { start_ms: u64, redraws: u64 },
    /// The surface was hidden; the loop is over for good.
    Terminated,
}

/// What the host does for one event. Times are milliseconds since binding.
#[derive(PartialEq, Eq, Structural, Debug, Clone, Copy)]
pub enum LoopAction {
    Nothing,
    RequestRedraw,
    /// Advance the animation to `elapsed_ms`, then render one frame.
    Render { elapsed_ms: u64 },
    Resize { width: u32, height: u32 },
    /// Advance the build sequence by the elapsed time.
    Advance { elapsed_ms: u64 },
    /// Hand the event to the renderer's generic handler.
    Forward { elapsed_ms: u64 },
    /// Stop the loop.
    Exit,
}

pub open spec fn elapsed(start_ms: u64, now_ms: u64) -> u64 {
    if now_ms >= start_ms {
        (now_ms - start_ms) as u64
    } else {
        0
    }
}

pub open spec fn count_frame(n: u64) -> u64 {
    if n == u64::MAX {
        n
    } else {
        (n + 1) as u64
    }
}

/// One transition: the next state and the action for `event`, delivered at
/// `now_ms`, while the renderer's generic handler is `busy` or not.
pub open spec fn next(s: LoopState, event: WindowEvent, now_ms: u64, busy: bool) -> (
    LoopState,
    LoopAction,
) {
    match s {
        LoopState::Bound { start_ms, redraws } => {
            let t = elapsed(start_ms, now_ms);
            match event {
                WindowEvent::AboutToWait => (s, LoopAction::RequestRedraw),
                WindowEvent::Occluded(true) => (LoopState::Terminated, LoopAction::Exit),
                WindowEvent::RedrawRequested => (
                    LoopState::Bound { start_ms, redraws: count_frame(redraws) },
                    LoopAction::Render { elapsed_ms: t },
                ),
                WindowEvent::Resized { width, height } => (
                    s,
                    LoopAction::Resize { width, height },
                ),
                WindowEvent::MouseInput { pressed: true, button: MouseButton::Right } => (
                    s,
                    LoopAction::Advance { elapsed_ms: t },
                ),
                _ => if busy {
                    (s, LoopAction::Nothing)
                } else {
                    (s, LoopAction::Forward { elapsed_ms: t })
                },
            }
        },
        _ => (s, LoopAction::Nothing),
    }
}

/// One pumped event: the event, the time it was delivered, and whether the
/// generic handler was busy.
pub type Pumped = (WindowEvent, u64, bool);

/// The state after pumping `events` in order from `s`.
pub open spec fn state_after(s: LoopState, events: Seq<Pumped>) -> LoopState
    decreases events.len(),
{
    if events.len() == 0 {
        s
    } else {
        let e = events.last();
        next(state_after(s, events.drop_last()), e.0, e.1, e.2).0
    }
}

/// How many frames are rendered while pumping `events` in order from `s`.
pub open spec fn renders(s: LoopState, events: Seq<Pumped>) -> nat
    decreases events.len(),
{
    if events.len() == 0 {
        0
    } else {
        let e = events.last();
        renders(s, events.drop_last()) + if next(state_after(s, events.drop_last()), e.0, e.1, e.2).1 is Render {
            1nat
        } else {
            0nat
        }
    }
}

pub proof fn lemma_terminated_is_final(events: Seq<Pumped>)
    ensures
        state_after(LoopState::Terminated, events) == LoopState::Terminated,
        renders(LoopState::Terminated, events) == 0,
    decreases events.len(),
{
    if events.len() > 0 {
        lemma_terminated_is_final(events.drop_last());
    }
}

/// Whatever was pumped after binding, an occlusion ends the loop: the state
/// becomes `Terminated`, stays so for every later event, and no later frame
/// is rendered.
pub proof fn lemma_occlusion_ends_loop(
    start_ms: u64,
    before: Seq<Pumped>,
    occluded_at: u64,
    busy: bool,
    after: Seq<Pumped>,
)
    ensures
        ({
            let s = state_after(
                LoopState::Bound { start_ms, redraws: 0 },
                before.push((WindowEvent::Occluded(true), occluded_at, busy)),
            );
            &&& s == LoopState::Terminated
            &&& state_after(s, after) == LoopState::Terminated
            &&& renders(s, after) == 0
        }),
{
    let s0 = LoopState::Bound { start_ms, redraws: 0 };
    lemma_never_unbound(s0, before);
    let evs = before.push((WindowEvent::Occluded(true), occluded_at, busy));
    assert(evs.drop_last() =~= before);
    lemma_terminated_is_final(after);
}

proof fn lemma_never_unbound(s: LoopState, events: Seq<Pumped>)
    requires
        !(s is Unbound),
    ensures
        !(state_after(s, events) is Unbound),
    decreases events.len(),
{
    if events.len() > 0 {
        lemma_never_unbound(s, events.drop_last());
    }
}

/// The loop driver.
#[derive(Debug)]
pub struct RenderLoop {
    state: LoopState,
}

impl RenderLoop {
    pub closed spec fn view(&self) -> LoopState {
        self.state
    }

    /// A driver with no surface bound.
    pub fn new() -> (r: RenderLoop)
        ensures
            r@ == LoopState::Unbound,
    {
        RenderLoop { state: LoopState::Unbound }
    }

    /// Binds the surface once the color table and the root document are
    /// resolved, starting the clock at `now_ms`. A driver stays unbound while
    /// either failed, and one that is bound or terminated already is left as
    /// it is.
    pub fn bind(
        &mut self,
        now_ms: u64,
        colors: &Result<Vec<u8>, ResolutionError>,
        root: &Result<(Location, Vec<u8>), ResolutionError>,
    )
        ensures
            final(self)@ == (if old(self)@ is Unbound && colors is Ok && root is Ok {
                LoopState::Bound { start_ms: now_ms, redraws: 0 }
            } else {
                old(self)@
            }),
    {
        if let LoopState::Unbound = self.state {
            if colors.is_err() || root.is_err() {
                return;
            }
            self.state = LoopState::Bound { start_ms: now_ms, redraws: 0 };
        }
    }

    /// The current state.
    pub fn state(&self) -> (r: LoopState)
        ensures
            r == self@,
    {
        self.state
    }

    /// Whether the loop is over.
    pub fn is_terminated(&self) -> (r: bool)
        ensures
            r == (self@ is Terminated),
    {
        matches!(self.state, LoopState::Terminated)
    }

    /// Handles one event delivered at `now_ms` (see `next`).
    pub fn step(&mut self, event: WindowEvent, now_ms: u64, busy: bool) -> (r: LoopAction)
        ensures
            (final(self)@, r) == next(old(self)@, event, now_ms, busy),
    {
        match self.state {
            LoopState::Bound { start_ms, redraws } => {
                let t: u64 = if now_ms >= start_ms {
                    now_ms - start_ms
                } else {
                    0
                };
                match event {
                    WindowEvent::AboutToWait => LoopAction::RequestRedraw,
                    WindowEvent::Occluded(true) => {
                        self.state = LoopState::Terminated;
                        LoopAction::Exit
                    },
                    WindowEvent::RedrawRequested => {
                        let frames: u64 = if redraws == u64::MAX {
                            redraws
                        } else {
                            redraws + 1
                        };
                        self.state = LoopState::Bound { start_ms, redraws: frames };
                        LoopAction::Render { elapsed_ms: t }
                    },
                    WindowEvent::Resized { width, height } => LoopAction::Resize { width, height },
                    WindowEvent::MouseInput { pressed: true, button: MouseButton::Right } => {
                        LoopAction::Advance { elapsed_ms: t }
                    },
                    _ => if busy {
                        LoopAction::Nothing
                    } else {
                        LoopAction::Forward { elapsed_ms: t }
                    },
                }
            },
            _ => LoopAction::Nothing,
        }
    }
}

} // verus!
