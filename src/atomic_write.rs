//! Crash-safe file replacement: write a temporary file, then rename it over
//! the destination; when the rename reports that the destination exists,
//! remove the destination and rename once more. The runtime performs each
//! step and reports its outcome.
use vstd::prelude::*;

verus! {

/// Where a write stands.
#[derive(Debug, Clone, Copy, PartialEq, Eq, Structural)]
pub enum WritePhase {
    /// Nothing written yet.
    Start,
    /// The temporary file holds the new content.
    TempWritten,
    /// The rename reported that the destination exists.
    Conflict,
    /// The conflicting destination was removed.
    DestinationRemoved,
    /// The destination holds the new content.
    Done,
    /// A step failed; the write is abandoned.
    Failed,
}

/// The next file operation to perform.
#[derive(Debug, Clone, Copy, PartialEq, Eq, Structural)]
pub enum WriteStep {
    WriteTemp,
    Rename,
    RemoveDestination,
    /// Nothing left to do; `ok` tells whether the destination was replaced.
    Finished { ok: bool },
}

/// How a file operation ended.
#[derive(Debug, Clone, Copy, PartialEq, Eq, Structural)]
pub enum StepOutcome {
    Succeeded,
    /// The rename failed because the destination exists.
    AlreadyExists,
    Failed,
}

pub open spec fn step_of(phase: WritePhase) -> WriteStep {
    match phase {
        WritePhase::Start => WriteStep::WriteTemp,
        WritePhase::TempWritten => WriteStep::Rename,
        WritePhase::Conflict => WriteStep::RemoveDestination,
        WritePhase::DestinationRemoved => WriteStep::Rename,
        WritePhase::Done => WriteStep::Finished { ok: true },
        WritePhase::Failed => WriteStep::Finished { ok: false },
    }
}

pub open spec fn next_phase(phase: WritePhase, outcome: StepOutcome) -> WritePhase {
    match (phase, outcome) {
        (WritePhase::Start, StepOutcome::Succeeded) => WritePhase::TempWritten,
        (WritePhase::TempWritten, StepOutcome::Succeeded) => WritePhase::Done,
        (WritePhase::TempWritten, StepOutcome::AlreadyExists) => WritePhase::Conflict,
        (WritePhase::Conflict, StepOutcome::Succeeded) => WritePhase::DestinationRemoved,
        (WritePhase::DestinationRemoved, StepOutcome::Succeeded) => WritePhase::Done,
        (WritePhase::Done, _) => WritePhase::Done,
        _ => WritePhase::Failed,
    }
}

/// Progress of one atomic write.
#[derive(Debug, Clone, Copy, PartialEq, Eq)]
pub struct AtomicWrite {
    pub phase: WritePhase,
}

impl AtomicWrite {
    pub fn new() -> (r: AtomicWrite)
        ensures
            r.phase == WritePhase::Start,
    {
        AtomicWrite { phase: WritePhase::Start }
    }

    /// The operation to perform now.
    pub fn next_step(&self) -> (r: WriteStep)
        ensures
            r == step_of(self.phase),
    {
        match self.phase {
            WritePhase::Start => WriteStep::WriteTemp,
            WritePhase::TempWritten => WriteStep::Rename,
            WritePhase::Conflict => WriteStep::RemoveDestination,
            WritePhase::DestinationRemoved => WriteStep::Rename,
            WritePhase::Done => WriteStep::Finished { ok: true },
            WritePhase::Failed => WriteStep::Finished { ok: false },
        }
    }

    /// Advances on the outcome of the step just performed: a conflict on
    /// the first rename leads to one removal and one more rename.
    pub fn on_outcome(&mut self, outcome: StepOutcome)
        ensures
            final(self).phase == next_phase(old(self).phase, outcome),
    {
        self.phase = match (self.phase, outcome) {
            (WritePhase::Start, StepOutcome::Succeeded) => WritePhase::TempWritten,
            (WritePhase::TempWritten, StepOutcome::Succeeded) => WritePhase::Done,
            (WritePhase::TempWritten, StepOutcome::AlreadyExists) => WritePhase::Conflict,
            (WritePhase::Conflict, StepOutcome::Succeeded) => WritePhase::DestinationRemoved,
            (WritePhase::DestinationRemoved, StepOutcome::Succeeded) => WritePhase::Done,
            (WritePhase::Done, _) => WritePhase::Done,
            _ => WritePhase::Failed,
        };
    }
}

/// The files a write touches: the destination and the temporary file.
pub struct Disk {
    pub dest: Option<Seq<u8>>,
    pub temp: Option<Seq<u8>>,
}

/// What a step does to the files. A failed temporary write may leave any
/// partial content behind (`partial`); a rename moves the temporary file
/// over the destination in one step; a removal deletes the destination.
pub open spec fn apply_step(d: Disk, phase: WritePhase, outcome: StepOutcome, data: Seq<u8>, partial: Seq<u8>) -> Disk {
    match phase {
        WritePhase::Start => Disk {
            temp: Some(if outcome == StepOutcome::Succeeded { data } else { partial }),
            ..d
        },
        WritePhase::TempWritten => match outcome {
            StepOutcome::Succeeded => Disk { dest: d.temp, temp: None },
            _ => d,
        },
        WritePhase::Conflict => match outcome {
            StepOutcome::Succeeded => Disk { dest: None, ..d },
            _ => d,
        },
        WritePhase::DestinationRemoved => match outcome {
            StepOutcome::Succeeded => Disk { dest: d.temp, temp: None },
            _ => d,
        },
        _ => d,
    }
}

/// Phase and files after the given outcomes, each step a possible crash
/// point (`partials[i]` is what a failed temporary write leaves).
pub open spec fn run(outcomes: Seq<StepOutcome>, partials: Seq<Seq<u8>>, data: Seq<u8>, d0: Disk) -> (WritePhase, Disk)
    decreases outcomes.len(),
{
    if outcomes.len() == 0 {
        (WritePhase::Start, d0)
    } else {
        let n = (outcomes.len() - 1) as int;
        let (p, d) = run(outcomes.subrange(0, n), partials, data, d0);
        (next_phase(p, outcomes[n]), apply_step(d, p, outcomes[n], data, partials[n]))
    }
}

pub open spec fn safe_state(p: WritePhase, d: Disk, data: Seq<u8>, previous: Option<Seq<u8>>) -> bool {
    &&& (p == WritePhase::Start || p == WritePhase::TempWritten || p == WritePhase::Conflict) ==> d.dest == previous
    &&& (p == WritePhase::TempWritten || p == WritePhase::Conflict || p == WritePhase::DestinationRemoved) ==> d.temp == Some(data)
    &&& p == WritePhase::DestinationRemoved ==> d.dest is None
    &&& p == WritePhase::Done ==> d.dest == Some(data)
    &&& p == WritePhase::Failed ==> (d.dest == previous || d.dest is None)
}

/// Wherever a write stops (a failed step or a crash after any number of
/// steps), the destination holds its previous content, the complete new
/// content, or (only after a conflicting rename removed it) nothing; it is
/// never partially written. Until a rename or the removal succeeds, the
/// previous stays.
pub proof fn lemma_destination_never_partial(
    outcomes: Seq<StepOutcome>,
    partials: Seq<Seq<u8>>,
    data: Seq<u8>,
    previous: Option<Seq<u8>>,
)
    requires
        partials.len() >= outcomes.len(),
    ensures
        ({
            let (p, d) = run(outcomes, partials, data, Disk { dest: previous, temp: None });
            &&& safe_state(p, d, data, previous)
            &&& d.dest == previous || d.dest == Some(data) || d.dest is None
        }),
    decreases outcomes.len(),
{
    if outcomes.len() > 0 {
        let n = (outcomes.len() - 1) as int;
        lemma_destination_never_partial(outcomes.subrange(0, n), partials, data, previous);
    }
}

} // verus!
