use cubeled::led_control::LedCommand;
use cubeled::ota::{
    boot_report, encode_image_length, image_length, ota_outcome, should_mark_valid, BootReport,
    BootedPartition, OtaAction, OtaChunk, OtaError, OtaImageState, OtaOutcome, OtaReceiver,
    CHUNK_LEN, OTA_PORT,
};

#[test]
fn length_prefix_is_big_endian() {
    assert_eq!(image_length([0, 0, 0x10, 0x01]), 4097);
    assert_eq!(image_length([0x01, 0x02, 0x03, 0x04]), 0x0102_0304);
    assert_eq!(encode_image_length(4097), [0, 0, 0x10, 0x01]);
    assert_eq!(image_length(encode_image_length(u32::MAX)), u32::MAX);
    assert_eq!(OTA_PORT, 3232);
}

fn plan(total: u32) -> Vec<OtaAction> {
    let mut rx = OtaReceiver::new(total);
    let mut actions = Vec::new();
    loop {
        let a = rx.next_action();
        actions.push(a);
        match a {
            OtaAction::Receive(_) => rx.chunk_written(),
            OtaAction::Activate => break,
        }
    }
    actions
}

#[test]
fn receiver_writes_contiguous_chunks_then_activates() {
    assert_eq!(
        plan(4097),
        vec![
            OtaAction::Receive(OtaChunk { offset: 0, len: CHUNK_LEN }),
            OtaAction::Receive(OtaChunk { offset: 4096, len: 1 }),
            OtaAction::Activate,
        ]
    );
    assert_eq!(
        plan(8192),
        vec![
            OtaAction::Receive(OtaChunk { offset: 0, len: 4096 }),
            OtaAction::Receive(OtaChunk { offset: 4096, len: 4096 }),
            OtaAction::Activate,
        ]
    );
}

#[test]
fn empty_image_activates_at_once() {
    assert_eq!(plan(0), vec![OtaAction::Activate]);
}

#[test]
fn error_messages() {
    assert_eq!(OtaError::ReadLength.message(), "failed to read image length");
    assert_eq!(OtaError::NoFreePartition.message(), "no free OTA partition");
    assert_eq!(OtaError::SetState.message(), "failed to set OTA state");
}

#[test]
fn only_new_or_pending_slots_are_marked_valid() {
    assert!(should_mark_valid(Some(OtaImageState::New)));
    assert!(should_mark_valid(Some(OtaImageState::PendingVerify)));
    assert!(!should_mark_valid(Some(OtaImageState::Valid)));
    assert!(!should_mark_valid(Some(OtaImageState::Undefined)));
    assert!(!should_mark_valid(None));
}

#[test]
fn boot_reports() {
    assert_eq!(boot_report(Some(Some(BootedPartition::Factory))), BootReport::Factory);
    assert_eq!(
        boot_report(Some(Some(BootedPartition::Ota(1)))),
        BootReport::NotFactory(BootedPartition::Ota(1))
    );
    assert_eq!(boot_report(Some(None)), BootReport::Unknown);
    assert_eq!(boot_report(None), BootReport::ReadFailed);
}

#[test]
fn outcomes() {
    assert_eq!(ota_outcome(Ok(())), OtaOutcome { command: LedCommand::ShowOtaSuccess, reboot: true });
    assert_eq!(
        ota_outcome(Err(OtaError::FlashWrite)),
        OtaOutcome { command: LedCommand::ResumeAnimation, reboot: false }
    );
}
