//! The write orchestrator: the staged plan of a write operation, from
//! unmounting through the copy, the buffer flush, and the optional
//! verification.
//!
//! The orchestrator is a state machine. The caller performs each action
//! the machine asks for — unmount the target's mounts, spawn the copy
//! subprocess, flush buffers, run verification — and feeds the outcome
//! back as an event. Every decision (what runs next, what a dry run may
//! touch, which failure ends the operation) is made here; the caller only
//! carries actions out.

use vstd::prelude::*;
use vstd::string::*;

use crate::catalog::Device;
use crate::safety::Confirmation;

verus! {

/// The validated intent of one write operation. Constructed only from an
/// authorized confirmation whose sizes match the request, so a value of
/// this type always describes an image that fits its target device.
pub struct WriteRequest {
    /// Path of the source image file.
    pub image_path: String,
    /// Size of the source image, in bytes.
    pub image_size: u64,
    /// The target device.
    pub device: Device,
    /// Verify the device contents against the image after writing.
    pub verify: bool,
    /// Report what would run instead of touching the device.
    pub dry_run: bool,
}

impl WriteRequest {
    /// The image fits on the device.
    pub open spec fn wf(&self) -> bool {
        self.image_size <= self.device.size
    }

    /// Build a request from a completed confirmation protocol. Yields nothing
    /// unless the protocol authorized exactly this image size against exactly
    /// this device's size.
    pub fn new(
        confirmation: &Confirmation,
        image_path: String,
        image_size: u64,
        device: Device,
        verify: bool,
        dry_run: bool,
    ) -> (r: Option<WriteRequest>)
        ensures
            r is Some <==> *confirmation == (Confirmation::Authorized {
                image_size,
                device_size: device.size,
            }) && image_size <= device.size,
            r matches Some(w) ==> {
                &&& w.wf()
                &&& w.image_path@ == image_path@
                &&& w.image_size == image_size
                &&& w.device == device
                &&& w.verify == verify
                &&& w.dry_run == dry_run
            },
    {
        match confirmation {
            Confirmation::Authorized { image_size: gi, device_size: gd } => {
                if *gi == image_size && *gd == device.size && image_size <= device.size {
                    Some(WriteRequest { image_path, image_size, device, verify, dry_run })
                } else {
                    None
                }
            },
            _ => None,
        }
    }
}

/// The exact command line a dry run reports in place of running the copy
/// tool: source, destination, fixed large block size, progress reporting.
pub open spec fn dry_run_command_spec(image: Seq<char>, device: Seq<char>) -> Seq<char> {
    "dd if="@ + image + " of="@ + device + " bs=4M status=progress"@
}

pub fn dry_run_command(image_path: &str, device_path: &str) -> (r: String)
    ensures
        r@ == dry_run_command_spec(image_path@, device_path@),
{
    let r = String::from_str("dd if=").concat(image_path).concat(" of=").concat(
        device_path,
    ).concat(" bs=4M status=progress");
    proof {
        assert(r@ =~= dry_run_command_spec(image_path@, device_path@));
    }
    r
}

/// How a failed operation failed.
#[derive(Clone, Copy, Debug, PartialEq, Eq, Structural)]
pub enum FailureKind {
    /// The copy tool could not be spawned.
    CopyLaunch,
    /// The copy subprocess exited unsuccessfully with this code.
    CopyExit { code: i32 },
    /// Verification did not pass.
    Verification,
}

/// Where the operation stands.
#[derive(Clone, Copy, Debug, PartialEq, Eq, Structural)]
pub enum WritePhase {
    /// Nothing has run yet.
    Ready,
    /// The target's mounts are being unmounted.
    Unmounting,
    /// The copy subprocess is running.
    Copying,
    /// Buffers are being flushed to the device.
    Flushing,
    /// Verification is running.
    Verifying,
    /// The operation completed successfully.
    Succeeded,
    /// The operation failed.
    Failed { failure: FailureKind },
}

/// What the caller reports back to the machine.
#[derive(Clone, Copy, Debug, PartialEq, Eq, Structural)]
pub enum WriteEvent {
    /// Begin the operation.
    Start,
    /// The unmount pass is over (failed unmounts included: they are
    /// non-fatal, the raw write will fail loudly if the device is busy).
    UnmountFinished,
    /// The copy tool could not be spawned.
    CopyLaunchFailed,
    /// The copy subprocess exited.
    CopyFinished { code: i32, success: bool },
    /// The buffer flush completed.
    FlushFinished,
    /// Verification finished; `matched` is whether the digests agreed.
    VerifyFinished { matched: bool },
}

/// What the machine asks the caller to do next.
#[derive(Clone, Copy, Debug, PartialEq, Eq, Structural)]
pub enum WriteAction {
    /// Print the exact command line that would have run, and nothing
    /// else: the device is not touched.
    EmitDryRun,
    /// Unmount every mount of the target device.
    DoUnmount,
    /// Spawn the copy subprocess and supervise its progress stream.
    SpawnCopy,
    /// Flush filesystem buffers and wait for the flush to finish.
    DoFlush,
    /// Run the verification engine over image and device.
    DoVerify,
    /// Nothing more to do: the operation is over.
    Stop,
}

/// The events a phase can accept. Terminal phases accept none.
pub open spec fn event_fits(phase: WritePhase, event: WriteEvent) -> bool {
    match phase {
        WritePhase::Ready => event is Start,
        WritePhase::Unmounting => event is UnmountFinished,
        WritePhase::Copying => event is CopyLaunchFailed || event is CopyFinished,
        WritePhase::Flushing => event is FlushFinished,
        WritePhase::Verifying => event is VerifyFinished,
        WritePhase::Succeeded => false,
        WritePhase::Failed { .. } => false,
    }
}

/// The operation is over.
pub open spec fn phase_terminal(phase: WritePhase) -> bool {
    phase is Succeeded || phase is Failed
}

/// One step of the orchestration: from the current phase and the event
/// just reported, the next phase and the action to take.
///
/// A dry run is decided first, before the unmount pass: it reports the
/// command line and succeeds without unmounting, copying, flushing or
/// verifying. A real run unmounts, copies, flushes, then verifies when
/// asked to; a copy that cannot launch or exits unsuccessfully ends the
/// operation without flushing or verifying.
pub open spec fn transition_spec(
    dry_run: bool,
    verify: bool,
    phase: WritePhase,
    event: WriteEvent,
) -> (WritePhase, WriteAction) {
    match (phase, event) {
        (WritePhase::Ready, WriteEvent::Start) => {
            if dry_run {
                (WritePhase::Succeeded, WriteAction::EmitDryRun)
            } else {
                (WritePhase::Unmounting, WriteAction::DoUnmount)
            }
        },
        (WritePhase::Unmounting, WriteEvent::UnmountFinished) => {
            (WritePhase::Copying, WriteAction::SpawnCopy)
        },
        (WritePhase::Copying, WriteEvent::CopyLaunchFailed) => {
            (WritePhase::Failed { failure: FailureKind::CopyLaunch }, WriteAction::Stop)
        },
        (WritePhase::Copying, WriteEvent::CopyFinished { code, success }) => {
            if success {
                (WritePhase::Flushing, WriteAction::DoFlush)
            } else {
                (WritePhase::Failed { failure: FailureKind::CopyExit { code } }, WriteAction::Stop)
            }
        },
        (WritePhase::Flushing, WriteEvent::FlushFinished) => {
            if verify {
                (WritePhase::Verifying, WriteAction::DoVerify)
            } else {
                (WritePhase::Succeeded, WriteAction::Stop)
            }
        },
        (WritePhase::Verifying, WriteEvent::VerifyFinished { matched }) => {
            if matched {
                (WritePhase::Succeeded, WriteAction::Stop)
            } else {
                (WritePhase::Failed { failure: FailureKind::Verification }, WriteAction::Stop)
            }
        },
        _ => (phase, WriteAction::Stop),
    }
}

/// The orchestrator a caller drives: it holds the request's flags and the
/// current phase.
pub struct WriteOrchestrator {
    pub dry_run: bool,
    pub verify: bool,
    pub phase: WritePhase,
}

impl WriteOrchestrator {
    pub fn new(req: &WriteRequest) -> (s: Self)
        ensures
            s.dry_run == req.dry_run,
            s.verify == req.verify,
            s.phase == WritePhase::Ready,
    {
        WriteOrchestrator { dry_run: req.dry_run, verify: req.verify, phase: WritePhase::Ready }
    }

    /// Report an event; the machine moves on and says what to do next.
    pub fn step(&mut self, event: WriteEvent) -> (a: WriteAction)
        requires
            event_fits(old(self).phase, event),
        ensures
            final(self).dry_run == old(self).dry_run,
            final(self).verify == old(self).verify,
            (final(self).phase, a) == transition_spec(
                old(self).dry_run,
                old(self).verify,
                old(self).phase,
                event,
            ),
    {
        let (next, action) = match (self.phase, event) {
            (WritePhase::Ready, WriteEvent::Start) => {
                if self.dry_run {
                    (WritePhase::Succeeded, WriteAction::EmitDryRun)
                } else {
                    (WritePhase::Unmounting, WriteAction::DoUnmount)
                }
            },
            (WritePhase::Unmounting, WriteEvent::UnmountFinished) => {
                (WritePhase::Copying, WriteAction::SpawnCopy)
            },
            (WritePhase::Copying, WriteEvent::CopyLaunchFailed) => {
                (WritePhase::Failed { failure: FailureKind::CopyLaunch }, WriteAction::Stop)
            },
            (WritePhase::Copying, WriteEvent::CopyFinished { code, success }) => {
                if success {
                    (WritePhase::Flushing, WriteAction::DoFlush)
                } else {
                    (
                        WritePhase::Failed { failure: FailureKind::CopyExit { code } },
                        WriteAction::Stop,
                    )
                }
            },
            (WritePhase::Flushing, WriteEvent::FlushFinished) => {
                if self.verify {
                    (WritePhase::Verifying, WriteAction::DoVerify)
                } else {
                    (WritePhase::Succeeded, WriteAction::Stop)
                }
            },
            (WritePhase::Verifying, WriteEvent::VerifyFinished { matched }) => {
                if matched {
                    (WritePhase::Succeeded, WriteAction::Stop)
                } else {
                    (WritePhase::Failed { failure: FailureKind::Verification }, WriteAction::Stop)
                }
            },
            _ => (self.phase, WriteAction::Stop),
        };
        self.phase = next;
        action
    }

}

/// The actions a run of the machine takes: starting from `phase`, feed
/// the events in order until one does not fit the phase (terminal phases
/// fit none), collecting the action of each step.
pub open spec fn actions_of(
    dry_run: bool,
    verify: bool,
    phase: WritePhase,
    events: Seq<WriteEvent>,
) -> Seq<WriteAction>
    decreases events.len(),
{
    if events.len() == 0 || !event_fits(phase, events[0]) {
        Seq::empty()
    } else {
        let step = transition_spec(dry_run, verify, phase, events[0]);
        seq![step.1] + actions_of(dry_run, verify, step.0, events.drop_first())
    }
}

/// A dry run never touches the device: starting the machine with
/// `dry_run` set, whatever events are fed to it, the only action it ever
/// takes is to report the command line — no unmount, no copy, no flush,
/// no verification — and a run that starts reports it exactly once.
pub proof fn lemma_dry_run_touches_nothing(verify: bool, events: Seq<WriteEvent>)
    ensures
        events.len() > 0 && events[0] is Start ==> actions_of(true, verify, WritePhase::Ready, events)
            =~= seq![WriteAction::EmitDryRun],
        !(events.len() > 0 && events[0] is Start) ==> actions_of(
            true,
            verify,
            WritePhase::Ready,
            events,
        ) =~= Seq::<WriteAction>::empty(),
{
    if events.len() > 0 && events[0] is Start {
        let step = transition_spec(true, verify, WritePhase::Ready, events[0]);
        assert(step == (WritePhase::Succeeded, WriteAction::EmitDryRun));
        assert(actions_of(true, verify, WritePhase::Succeeded, events.drop_first())
            =~= Seq::<WriteAction>::empty());
    }
}

} // verus!
