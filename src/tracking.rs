//! Per-frame decisions of the tracking loop: which crop policy feeds the
//! landmark model, what a failure does to the loop, and how long to wait
//! before the next frame.
use vstd::prelude::*;

verus! {

/// How the region of interest for the landmark model is derived.
#[derive(Clone, Copy, Debug, PartialEq, Eq, Structural)]
pub enum CropPolicy {
    /// From the detected face box.
    Box,
    /// From the previous frame's reconstructed landmarks.
    Landmark,
}

/// What follows a landmark-model pass.
#[derive(Clone, Copy, Debug, PartialEq, Eq, Structural)]
pub enum PassOutcome {
    /// Run the model again with this policy.
    Reinfer(CropPolicy),
    /// Keep this pass and reconstruct the landmarks from it.
    Reconstruct,
}

/// A landmark-derived crop with an area below this many square pixels is degenerate.
pub const MIN_ROI_AREA: u32 = 2020;

/// Crop-policy state carried from frame to frame.
#[derive(Clone, Copy, Debug, PartialEq, Eq, Structural)]
pub struct TrackerState {
    /// Whether the first frame has been processed; until then there are no
    /// landmarks to crop from.
    pub bootstrapped: bool,
}

/// The outcome of a pass with `pass`, where `degenerate` tells whether its crop
/// was too small, and whether the tracker is bootstrapped afterwards.
pub open spec fn pass_step(bootstrapped: bool, pass: CropPolicy, degenerate: bool) -> (PassOutcome, bool) {
    if !bootstrapped {
        match pass {
            CropPolicy::Box => (PassOutcome::Reinfer(CropPolicy::Landmark), false),
            CropPolicy::Landmark => (PassOutcome::Reconstruct, true),
        }
    } else {
        match pass {
            CropPolicy::Landmark => if degenerate {
                (PassOutcome::Reinfer(CropPolicy::Box), true)
            } else {
                (PassOutcome::Reconstruct, true)
            },
            CropPolicy::Box => (PassOutcome::Reconstruct, true),
        }
    }
}

impl TrackerState {
    /// The state before the first frame.
    pub fn new() -> (r: TrackerState)
        ensures
            !r.bootstrapped,
    {
        TrackerState { bootstrapped: false }
    }

    /// The policy of a frame's first pass: `Box` until bootstrapped, `Landmark` after.
    pub fn opening_policy(&self) -> (r: CropPolicy)
        ensures
            r == (if self.bootstrapped { CropPolicy::Landmark } else { CropPolicy::Box }),
    {
        if self.bootstrapped {
            CropPolicy::Landmark
        } else {
            CropPolicy::Box
        }
    }

    /// Decides what follows a pass. While bootstrapping, a `Box` pass is
    /// followed by a `Landmark` pass, which completes the bootstrap. Afterwards a
    /// degenerate `Landmark` crop is redone once with `Box`.
    pub fn after_pass(&mut self, pass: CropPolicy, degenerate: bool) -> (r: PassOutcome)
        ensures
            (r, final(self).bootstrapped) == pass_step(old(self).bootstrapped, pass, degenerate),
    {
        if !self.bootstrapped {
            match pass {
                CropPolicy::Box => PassOutcome::Reinfer(CropPolicy::Landmark),
                CropPolicy::Landmark => {
                    self.bootstrapped = true;
                    PassOutcome::Reconstruct
                },
            }
        } else {
            match pass {
                CropPolicy::Landmark => if degenerate {
                    PassOutcome::Reinfer(CropPolicy::Box)
                } else {
                    PassOutcome::Reconstruct
                },
                CropPolicy::Box => PassOutcome::Reconstruct,
            }
        }
    }
}

/// A frame needs at most two passes: following the outcomes from the opening
/// policy, the second pass always ends in reconstruction.
pub proof fn lemma_at_most_two_passes(bootstrapped: bool, first_degenerate: bool, second_degenerate: bool)
    ensures
        ({
            let first = if bootstrapped { CropPolicy::Landmark } else { CropPolicy::Box };
            let (o1, b1) = pass_step(bootstrapped, first, first_degenerate);
            match o1 {
                PassOutcome::Reconstruct => b1,
                PassOutcome::Reinfer(p) => pass_step(b1, p, second_degenerate) == (PassOutcome::Reconstruct, true),
            }
        }),
{
}

/// Failures the tracking loop can meet.
#[derive(Clone, Copy, Debug, PartialEq, Eq, Structural)]
pub enum Failure {
    /// The camera could not be opened or read.
    DeviceUnavailable,
    /// The landmark model could not be loaded or run.
    InferenceFailure,
    /// A pose datagram could not be sent.
    SendFailure,
    /// A model asset could not be decoded.
    DecodeFailure,
}

/// What the loop does about a failure.
#[derive(Clone, Copy, Debug, PartialEq, Eq, Structural)]
pub enum Disposition {
    /// Drop the current frame and go on with the next one.
    SkipFrame,
    /// End the loop and report the failure.
    Stop,
}

/// Only an inference failure on a running loop is survivable: the frame is
/// skipped. Any failure while starting, and any other failure, stops the loop.
pub fn disposition(failure: Failure, starting: bool) -> (r: Disposition)
    ensures
        r == (if !starting && failure == Failure::InferenceFailure {
            Disposition::SkipFrame
        } else {
            Disposition::Stop
        }),
{
    match failure {
        Failure::InferenceFailure => if starting {
            Disposition::Stop
        } else {
            Disposition::SkipFrame
        },
        _ => Disposition::Stop,
    }
}

/// Milliseconds to sleep after an iteration that took `elapsed_ms`, so that
/// iterations start every `1000 / fps` ms; never negative.
pub fn frame_delay_ms(fps: u32, elapsed_ms: u64) -> (r: u64)
    requires
        fps > 0,
    ensures
        r == (if (elapsed_ms as int) < 1000int / (fps as int) {
            1000int / (fps as int) - elapsed_ms
        } else {
            0
        }),
{
    let budget: u64 = (1000 / fps) as u64;
    if elapsed_ms < budget {
        budget - elapsed_ms
    } else {
        0
    }
}

} // verus!
