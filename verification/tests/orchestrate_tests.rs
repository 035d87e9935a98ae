use burn_engine::catalog::Device;
use burn_engine::catalog::Transport;
use burn_engine::orchestrate::dry_run_command;
use burn_engine::orchestrate::FailureKind;
use burn_engine::orchestrate::WriteEvent;
use burn_engine::orchestrate::WriteAction;
use burn_engine::orchestrate::WriteOrchestrator;
use burn_engine::orchestrate::WritePhase;
use burn_engine::orchestrate::WriteRequest;
use burn_engine::safety::Confirmation;

fn device() -> Device {
    Device {
        name: "sdb".to_string(),
        path: "/dev/sdb".to_string(),
        size: 16_008_609_792,
        model: "Cruzer Blade".to_string(),
        removable: true,
        transport: Transport::Usb,
    }
}

fn request(verify: bool, dry_run: bool) -> WriteRequest {
    let confirmed = Confirmation::begin(3_000_000_000, device().size).answer(true).answer(true);
    WriteRequest::new(
        &confirmed,
        "/tmp/linux.iso".to_string(),
        3_000_000_000,
        device(),
        verify,
        dry_run,
    )
    .expect("authorized confirmation yields a request")
}

#[test]
fn request_needs_an_authorized_confirmation() {
    let declined = Confirmation::begin(1, device().size).answer(false);
    assert!(WriteRequest::new(
        &declined,
        "/tmp/linux.iso".to_string(),
        1,
        device(),
        false,
        false
    )
    .is_none());

    let wrong_size = Confirmation::begin(1, device().size).answer(true).answer(true);
    assert!(
        WriteRequest::new(&wrong_size, "/tmp/linux.iso".to_string(), 2, device(), false, false)
            .is_none(),
        "the protocol authorized another image size"
    );
}

#[test]
fn dry_run_command_line_is_exact() {
    assert_eq!(
        dry_run_command("/tmp/linux.iso", "/dev/sdb"),
        "dd if=/tmp/linux.iso of=/dev/sdb bs=4M status=progress"
    );
}

#[test]
fn dry_run_emits_one_command_and_touches_nothing() {
    let req = request(true, true);
    let mut m = WriteOrchestrator::new(&req);
    let first = m.step(WriteEvent::Start);
    // the one and only action: report the command line
    assert_eq!(first, WriteAction::EmitDryRun);
    // and the operation is already over, successfully: no unmount, no
    // copy, no flush, no verification can follow
    assert_eq!(m.phase, WritePhase::Succeeded);
}

#[test]
fn real_run_with_verification_takes_every_stage_in_order() {
    let req = request(true, false);
    let mut m = WriteOrchestrator::new(&req);
    assert_eq!(m.step(WriteEvent::Start), WriteAction::DoUnmount);
    assert_eq!(m.step(WriteEvent::UnmountFinished), WriteAction::SpawnCopy);
    assert_eq!(
        m.step(WriteEvent::CopyFinished { code: 0, success: true }),
        WriteAction::DoFlush
    );
    assert_eq!(m.step(WriteEvent::FlushFinished), WriteAction::DoVerify);
    assert_eq!(m.step(WriteEvent::VerifyFinished { matched: true }), WriteAction::Stop);
    assert_eq!(m.phase, WritePhase::Succeeded);
}

#[test]
fn real_run_without_verification_stops_after_flush() {
    let req = request(false, false);
    let mut m = WriteOrchestrator::new(&req);
    m.step(WriteEvent::Start);
    m.step(WriteEvent::UnmountFinished);
    m.step(WriteEvent::CopyFinished { code: 0, success: true });
    assert_eq!(m.step(WriteEvent::FlushFinished), WriteAction::Stop);
    assert_eq!(m.phase, WritePhase::Succeeded);
}

#[test]
fn failed_copy_aborts_with_its_exit_code() {
    let req = request(true, false);
    let mut m = WriteOrchestrator::new(&req);
    m.step(WriteEvent::Start);
    m.step(WriteEvent::UnmountFinished);
    let a = m.step(WriteEvent::CopyFinished { code: 1, success: false });
    assert_eq!(a, WriteAction::Stop);
    assert_eq!(
        m.phase,
        WritePhase::Failed { failure: FailureKind::CopyExit { code: 1 } },
        "no flush and no verification after a failed copy"
    );
}

#[test]
fn unspawnable_copy_tool_aborts() {
    let req = request(false, false);
    let mut m = WriteOrchestrator::new(&req);
    m.step(WriteEvent::Start);
    m.step(WriteEvent::UnmountFinished);
    assert_eq!(m.step(WriteEvent::CopyLaunchFailed), WriteAction::Stop);
    assert_eq!(m.phase, WritePhase::Failed { failure: FailureKind::CopyLaunch });
}

#[test]
fn failed_verification_fails_the_operation() {
    let req = request(true, false);
    let mut m = WriteOrchestrator::new(&req);
    m.step(WriteEvent::Start);
    m.step(WriteEvent::UnmountFinished);
    m.step(WriteEvent::CopyFinished { code: 0, success: true });
    m.step(WriteEvent::FlushFinished);
    assert_eq!(m.step(WriteEvent::VerifyFinished { matched: false }), WriteAction::Stop);
    assert_eq!(m.phase, WritePhase::Failed { failure: FailureKind::Verification });
}
