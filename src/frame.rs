use vstd::prelude::*;

verus! {

/// Lanes per batch of the simulation dispatch.
pub const LANES_PER_BATCH: u32 = 64;

/// Batches needed to give each of `n` vertices a lane: `n / 64` rounded up.
pub open spec fn batches_for(n: int) -> int {
    (n + LANES_PER_BATCH - 1) / LANES_PER_BATCH as int
}

/// Number of batches that cover `vertex_count` lanes, with no partial batch
/// left out.
pub fn batch_count(vertex_count: u32) -> (r: u32)
    ensures
        r == batches_for(vertex_count as int),
        r as int * LANES_PER_BATCH >= vertex_count,
        (r as int - 1) * LANES_PER_BATCH < vertex_count,
{
    let r = (vertex_count as u64 + (LANES_PER_BATCH as u64 - 1)) / LANES_PER_BATCH as u64;
    r as u32
}

/// Where the coordinator stands within a frame.
#[derive(Clone, Copy, Debug, PartialEq, Eq, Structural)]
pub enum FramePhase {
    /// Between frames.
    Idle,
    /// The uniform block is being written.
    UniformPending,
    /// The simulation step has been dispatched.
    StepPending,
    /// The render stage is drawing the updated buffers.
    DrawPending,
    /// The device failed; nothing more is issued until `recover`.
    Failed,
}

/// What the host reports to the coordinator.
#[derive(Clone, Copy, Debug, PartialEq, Eq, Structural)]
pub enum FrameEvent {
    /// A new frame begins.
    FrameStart,
    /// The last action was carried out.
    Completed,
    /// The device reported a failure.
    DeviceFailure,
}

/// What the host must do next.
#[derive(Clone, Copy, Debug, PartialEq, Eq, Structural)]
pub enum FrameAction {
    /// Rewrite the whole uniform block, with this vertex count.
    WriteUniform { vertex_count: u32 },
    /// Run the simulation step over this many batches.
    Dispatch { batches: u32 },
    /// Draw the sphere, then the cloth with this many triangle indices.
    Draw { index_count: u32 },
    /// The frame is over.
    FrameDone,
    /// Drop the current frame and report the failure.
    Abort,
    /// The event does not fit the current phase; nothing to do.
    Nothing,
}

/// Orders each frame: uniform, then the simulation step, then drawing.
pub struct FrameCoordinator {
    pub phase: FramePhase,
    pub vertex_count: u32,
    pub index_count: u32,
}

/// The phase after event `e` in phase `p`.
pub open spec fn next_phase(p: FramePhase, e: FrameEvent) -> FramePhase {
    match (p, e) {
        (FramePhase::Failed, _) => FramePhase::Failed,
        (_, FrameEvent::DeviceFailure) => FramePhase::Failed,
        (FramePhase::Idle, FrameEvent::FrameStart) => FramePhase::UniformPending,
        (FramePhase::UniformPending, FrameEvent::Completed) => FramePhase::StepPending,
        (FramePhase::StepPending, FrameEvent::Completed) => FramePhase::DrawPending,
        (FramePhase::DrawPending, FrameEvent::Completed) => FramePhase::Idle,
        _ => p,
    }
}

/// The action for event `e` in phase `p` of a cloth with `vertex_count`
/// vertices and `index_count` triangle indices.
pub open spec fn action_for(
    p: FramePhase,
    e: FrameEvent,
    vertex_count: u32,
    index_count: u32,
) -> FrameAction {
    match (p, e) {
        (FramePhase::Failed, _) => FrameAction::Nothing,
        (_, FrameEvent::DeviceFailure) => FrameAction::Abort,
        (FramePhase::Idle, FrameEvent::FrameStart) => FrameAction::WriteUniform { vertex_count },
        (FramePhase::UniformPending, FrameEvent::Completed) => FrameAction::Dispatch {
            batches: batches_for(vertex_count as int) as u32,
        },
        (FramePhase::StepPending, FrameEvent::Completed) => FrameAction::Draw { index_count },
        (FramePhase::DrawPending, FrameEvent::Completed) => FrameAction::FrameDone,
        _ => FrameAction::Nothing,
    }
}

impl FrameCoordinator {
    /// A coordinator between frames.
    pub fn new(vertex_count: u32, index_count: u32) -> (r: Self)
        ensures
            r.phase == FramePhase::Idle,
            r.vertex_count == vertex_count,
            r.index_count == index_count,
    {
        FrameCoordinator { phase: FramePhase::Idle, vertex_count, index_count }
    }

    /// Takes in what the host reports and says what it must do next.
    pub fn on_event(&mut self, e: FrameEvent) -> (a: FrameAction)
        ensures
            final(self).phase == next_phase(old(self).phase, e),
            a == action_for(old(self).phase, e, old(self).vertex_count, old(self).index_count),
            final(self).vertex_count == old(self).vertex_count,
            final(self).index_count == old(self).index_count,
    {
        let (phase, action) = match (self.phase, e) {
            (FramePhase::Failed, _) => (FramePhase::Failed, FrameAction::Nothing),
            (_, FrameEvent::DeviceFailure) => (FramePhase::Failed, FrameAction::Abort),
            (FramePhase::Idle, FrameEvent::FrameStart) => (
                FramePhase::UniformPending,
                FrameAction::WriteUniform { vertex_count: self.vertex_count },
            ),
            (FramePhase::UniformPending, FrameEvent::Completed) => (
                FramePhase::StepPending,
                FrameAction::Dispatch { batches: batch_count(self.vertex_count) },
            ),
            (FramePhase::StepPending, FrameEvent::Completed) => (
                FramePhase::DrawPending,
                FrameAction::Draw { index_count: self.index_count },
            ),
            (FramePhase::DrawPending, FrameEvent::Completed) => (
                FramePhase::Idle,
                FrameAction::FrameDone,
            ),
            (p, _) => (p, FrameAction::Nothing),
        };
        self.phase = phase;
        action
    }

    /// The host has recreated what the device lost: start again between
    /// frames.
    pub fn recover(&mut self)
        ensures
            final(self).phase == FramePhase::Idle,
            final(self).vertex_count == old(self).vertex_count,
            final(self).index_count == old(self).index_count,
    {
        self.phase = FramePhase::Idle;
    }
}

/// A frame that runs without failure issues, from `Idle`, exactly: the
/// uniform write, the dispatch over all batches, the draw, then the end of
/// the frame, and comes back to `Idle`.
pub proof fn lemma_frame_order(vertex_count: u32, index_count: u32)
    ensures
        ({
            let p0 = FramePhase::Idle;
            let p1 = next_phase(p0, FrameEvent::FrameStart);
            let p2 = next_phase(p1, FrameEvent::Completed);
            let p3 = next_phase(p2, FrameEvent::Completed);
            let p4 = next_phase(p3, FrameEvent::Completed);
            &&& action_for(p0, FrameEvent::FrameStart, vertex_count, index_count)
                == FrameAction::WriteUniform { vertex_count }
            &&& action_for(p1, FrameEvent::Completed, vertex_count, index_count)
                == FrameAction::Dispatch { batches: batches_for(vertex_count as int) as u32 }
            &&& action_for(p2, FrameEvent::Completed, vertex_count, index_count)
                == FrameAction::Draw { index_count }
            &&& action_for(p3, FrameEvent::Completed, vertex_count, index_count)
                == FrameAction::FrameDone
            &&& p4 == FramePhase::Idle
        }),
{
}

} // verus!
