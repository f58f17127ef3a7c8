use vstd::prelude::*;

verus! {

use crate::img::{ColorImage, LumaImage, luma_to_color};

/// Whether a slot has an edge-filter job in flight. The worker itself (a
/// thread, in the host program) lives outside; the controller only tracks
/// the per-slot state and owns the per-slot working image.
#[derive(Clone, Copy, PartialEq, Eq, Structural, Debug)]
pub enum JobState {
    Idle,
    Running,
}

/// What the host observed of a slot's worker since the last poll: still
/// computing, finished with a result, or terminated abnormally.
pub enum JobEvent {
    Pending,
    Finished(LumaImage),
    Aborted,
}

/// What one poll did.
#[derive(Clone, Copy, PartialEq, Eq, Structural, Debug)]
pub enum PollOutcome {
    /// The slot was idle: nothing to consume, nothing changed.
    NoJob,
    /// The job is still running: the working image is untouched.
    StillRunning,
    /// The finished result was consumed and installed as the working image.
    Installed,
    /// The worker died; the slot is idle again, the prior image intact,
    /// and the failure recorded for display.
    JobFailed,
}

/// One viewer slot: its working image, its job state, and a recorded
/// failure flag for the last job that died.
pub struct Slot {
    pub image: Option<ColorImage>,
    pub job: JobState,
    pub failed: bool,
}

impl Slot {
    pub open spec fn wf(self) -> bool {
        self.image is Some ==> self.image->Some_0.wf()
    }
}

/// The controller owning every viewer slot; poll and dispatch go through it
/// rather than through ambient mutable state.
pub struct JobController {
    pub slots: Vec<Slot>,
}

impl JobController {
    pub open spec fn wf(self) -> bool {
        forall|i: int| 0 <= i < self.slots.len() ==> (#[trigger] self.slots[i]).wf()
    }

    pub fn new() -> (r: JobController)
        ensures
            r.wf(),
            r.slots.len() == 0,
    {
        JobController { slots: Vec::new() }
    }

    /// Add a viewer slot holding an initial working image; it starts idle.
    pub fn add_slot(&mut self, image: ColorImage) -> (idx: usize)
        requires
            old(self).wf(),
            image.wf(),
        ensures
            final(self).wf(),
            final(self).slots.len() == old(self).slots.len() + 1,
            idx == old(self).slots.len(),
            forall|i: int| 0 <= i < idx ==> final(self).slots[i] == old(self).slots[i],
            final(self).slots[idx as int].job == JobState::Idle,
            final(self).slots[idx as int].image == Some(image),
            !final(self).slots[idx as int].failed,
    {
        let idx = self.slots.len();
        self.slots.push(Slot { image: Some(image), job: JobState::Idle, failed: false });
        idx
    }

    /// Record that an edge-filter job was handed to a worker for this slot.
    /// Only an idle slot may dispatch (one in-flight job per slot); the
    /// input image the worker will read is passed through unchanged, so the
    /// job owns its copy for its whole duration and the slot's own working
    /// image stays untouched.
    pub fn dispatch_job(&mut self, slot: usize, input: LumaImage) -> (out: LumaImage)
        requires
            old(self).wf(),
            slot < old(self).slots.len(),
            old(self).slots[slot as int].job == JobState::Idle,
        ensures
            final(self).wf(),
            out == input,
            final(self).slots.len() == old(self).slots.len(),
            final(self).slots[slot as int].job == JobState::Running,
            final(self).slots[slot as int].image == old(self).slots[slot as int].image,
            final(self).slots[slot as int].failed == old(self).slots[slot as int].failed,
            forall|i: int|
                0 <= i < final(self).slots.len() && i != slot ==> final(self).slots[i] == old(self).slots[i],
    {
        let old_slot = self.slots.remove(slot);
        self.slots.insert(
            slot,
            Slot { image: old_slot.image, job: JobState::Running, failed: old_slot.failed },
        );
        input
    }

    /// Poll a slot with what the host observed of its worker.
    /// - An idle slot consumes nothing and nothing changes, so a poll after
    ///   consumption is a no-op.
    /// - A pending job leaves the working image and the job state untouched.
    /// - A finished job's result is installed (expanded to full color) as the
    ///   slot's new working image, exactly once, and the slot returns to idle.
    /// - An aborted worker is fatal for that job: the slot returns to idle
    ///   with its prior image intact and the failure recorded.
    pub fn poll_and_consume(&mut self, slot: usize, event: JobEvent) -> (r: PollOutcome)
        requires
            old(self).wf(),
            slot < old(self).slots.len(),
            event matches JobEvent::Finished(res) ==> res.wf(),
        ensures
            final(self).wf(),
            final(self).slots.len() == old(self).slots.len(),
            forall|i: int|
                0 <= i < final(self).slots.len() && i != slot ==> final(self).slots[i] == old(self).slots[i],
            old(self).slots[slot as int].job == JobState::Idle ==> r == PollOutcome::NoJob
                && final(self).slots[slot as int] == old(self).slots[slot as int],
            old(self).slots[slot as int].job == JobState::Running && event is Pending ==> r
                == PollOutcome::StillRunning && final(self).slots[slot as int] == old(self).slots[slot as int],
            old(self).slots[slot as int].job == JobState::Running && event is Finished ==> {
                let res = event->Finished_0;
                let s = final(self).slots[slot as int];
                &&& r == PollOutcome::Installed
                &&& s.job == JobState::Idle
                &&& !s.failed
                &&& s.image is Some
                &&& s.image->Some_0.width == res.width
                &&& s.image->Some_0.height == res.height
                &&& forall|j: int|
                    0 <= j < res.data.len() ==> {
                        let p = #[trigger] s.image->Some_0.pixels[j];
                        p.r == res.data[j] as u64 && p.g == res.data[j] as u64 && p.b == res.data[j]
                            as u64 && p.den == 255
                    }
            },
            old(self).slots[slot as int].job == JobState::Running && event is Aborted ==> {
                let s = final(self).slots[slot as int];
                &&& r == PollOutcome::JobFailed
                &&& s.job == JobState::Idle
                &&& s.failed
                &&& s.image == old(self).slots[slot as int].image
            },
    {
        let is_idle = matches!(self.slots[slot].job, JobState::Idle);
        if is_idle {
            return PollOutcome::NoJob;
        }
        match event {
            JobEvent::Pending => PollOutcome::StillRunning,
            JobEvent::Finished(res) => {
                let installed = luma_to_color(&res);
                let _ = self.slots.remove(slot);
                self.slots.insert(
                    slot,
                    Slot { image: Some(installed), job: JobState::Idle, failed: false },
                );
                PollOutcome::Installed
            },
            JobEvent::Aborted => {
                let old_slot = self.slots.remove(slot);
                self.slots.insert(
                    slot,
                    Slot { image: old_slot.image, job: JobState::Idle, failed: true },
                );
                PollOutcome::JobFailed
            },
        }
    }
}

} // verus!
