//! The decisions of the animation loop: when to step the scene and when to
//! ask the host for another frame. The host runs the loop, performs the
//! action chosen here and reports what happened as an event.
use vstd::prelude::*;

verus! {

/// Where the animation loop stands.
#[derive(Clone, Copy, Debug, PartialEq, Eq, Structural)]
pub enum LoopState {
    /// Built, with no frame asked for yet.
    Idle,
    /// A frame has been asked for, and each frame asks for the next.
    Running,
    /// Stopped for good: no frame is asked for any more.
    Terminated,
}

/// What the host reports to the loop.
#[derive(Clone, Copy, Debug, PartialEq, Eq, Structural)]
pub enum LoopEvent {
    /// The animation is to begin (at load, or on the user's trigger).
    Start,
    /// The host calls back for an animation frame.
    Frame,
    /// The animation is to stop.
    Cancel,
    /// The page goes away.
    Unload,
}

/// What the host is to do next.
#[derive(Clone, Copy, Debug, PartialEq, Eq, Structural)]
pub enum FrameAction {
    /// Nothing.
    Nothing,
    /// Ask for an animation frame.
    RequestFrame,
    /// Advance the scene one step, write every object's pose onto its element,
    /// then ask for the next animation frame.
    StepRenderAndRequest,
}

/// The animation loop's state machine.
pub struct FrameScheduler {
    pub state: LoopState,
}

impl FrameScheduler {
    /// A loop that has not started.
    pub fn new() -> (r: FrameScheduler)
        ensures
            r.state == LoopState::Idle,
    {
        FrameScheduler { state: LoopState::Idle }
    }

    /// Takes the event `e` and returns what the host is to do. Only a running
    /// loop steps the scene; a start begins the loop once; a cancel or an
    /// unload ends it for good, and nothing revives it.
    pub fn on_event(&mut self, e: LoopEvent) -> (r: FrameAction)
        ensures
            old(self).state == LoopState::Idle && e == LoopEvent::Start ==> final(self).state
                == LoopState::Running && r == FrameAction::RequestFrame,
            old(self).state == LoopState::Idle && e == LoopEvent::Frame ==> final(self).state
                == LoopState::Idle && r == FrameAction::Nothing,
            old(self).state == LoopState::Running && e == LoopEvent::Frame ==> final(self).state
                == LoopState::Running && r == FrameAction::StepRenderAndRequest,
            old(self).state == LoopState::Running && e == LoopEvent::Start ==> final(self).state
                == LoopState::Running && r == FrameAction::Nothing,
            e == LoopEvent::Cancel || e == LoopEvent::Unload ==> final(self).state
                == LoopState::Terminated && r == FrameAction::Nothing,
            old(self).state == LoopState::Terminated ==> final(self).state
                == LoopState::Terminated && r == FrameAction::Nothing,
    {
        match (self.state, e) {
            (LoopState::Terminated, _) => FrameAction::Nothing,
            (_, LoopEvent::Cancel) | (_, LoopEvent::Unload) => {
                self.state = LoopState::Terminated;
                FrameAction::Nothing
            },
            (LoopState::Idle, LoopEvent::Start) => {
                self.state = LoopState::Running;
                FrameAction::RequestFrame
            },
            (LoopState::Idle, LoopEvent::Frame) => FrameAction::Nothing,
            (LoopState::Running, LoopEvent::Frame) => FrameAction::StepRenderAndRequest,
            (LoopState::Running, LoopEvent::Start) => FrameAction::Nothing,
        }
    }
}

} // verus!
