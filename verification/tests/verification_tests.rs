use burn_engine::catalog::require_devices;
use burn_engine::errors::BurnError;
use burn_engine::safety::confirmation_error;
use burn_engine::safety::Confirmation;
use burn_engine::verification::extract_digest;
use burn_engine::verification::sectors_for_image;
use burn_engine::verification::verify_outcome;

#[test]
fn sectors_cover_image_rounding_up() {
    assert_eq!(sectors_for_image(0), 0);
    assert_eq!(sectors_for_image(1), 1);
    assert_eq!(sectors_for_image(511), 1);
    assert_eq!(sectors_for_image(512), 1);
    assert_eq!(sectors_for_image(513), 2);
    assert_eq!(sectors_for_image(1024), 2);
    // a typical 4.7 GB image
    assert_eq!(sectors_for_image(4_700_372_992), 4_700_372_992 / 512);
    assert_eq!(sectors_for_image(4_700_372_993), 4_700_372_992 / 512 + 1);
    assert_eq!(sectors_for_image(u64::MAX), u64::MAX / 512 + 1);
}

#[test]
fn digest_token_is_first_field_of_tool_output() {
    assert_eq!(
        extract_digest("d41d8cd98f00b204e9800998ecf8427e  /tmp/linux.iso\n"),
        "d41d8cd98f00b204e9800998ecf8427e"
    );
    assert_eq!(extract_digest("0123abcd  -\n"), "0123abcd");
    assert_eq!(extract_digest("   spaced-output rest"), "spaced-output");
    assert_eq!(extract_digest(""), "");
    assert_eq!(extract_digest("   \n"), "");
}

#[test]
fn equal_digests_verify() {
    let r = verify_outcome(
        "b026324c6904b2a9cb4b88d6d61c81d1  /tmp/linux.iso\n",
        "b026324c6904b2a9cb4b88d6d61c81d1  -\n",
    );
    assert_eq!(r, Ok(()));
}

#[test]
fn single_differing_digit_is_a_mismatch() {
    let r = verify_outcome(
        "b026324c6904b2a9cb4b88d6d61c81d1  /tmp/linux.iso\n",
        "b026324c6904b2a9cb4b88d6d61c81d2  -\n",
    );
    assert_eq!(
        r,
        Err(BurnError::VerifyMismatch {
            expected: "b026324c6904b2a9cb4b88d6d61c81d1".to_string(),
            actual: "b026324c6904b2a9cb4b88d6d61c81d2".to_string(),
        })
    );
}

#[test]
fn digest_comparison_is_case_sensitive() {
    let r = verify_outcome("ABCDEF  x\n", "abcdef  -\n");
    assert!(r.is_err());
}

#[test]
fn empty_tool_output_never_passes() {
    // two failed digest runs must not be taken for agreement
    let r = verify_outcome("", "");
    assert!(r.is_err());
}

#[test]
fn confirmation_outcomes_map_to_their_errors() {
    let rejected = Confirmation::begin(2_000, 1_000);
    assert_eq!(
        confirmation_error(&rejected),
        Some(BurnError::SizeMismatch { image_size: 2_000, device_size: 1_000 })
    );
    let cancelled = Confirmation::begin(500, 1_000).answer(false);
    assert_eq!(confirmation_error(&cancelled), Some(BurnError::UserCancelled));
    let authorized = Confirmation::begin(500, 1_000).answer(true).answer(true);
    assert_eq!(confirmation_error(&authorized), None);
    assert_eq!(confirmation_error(&Confirmation::begin(500, 1_000)), None);
}

#[test]
fn empty_catalog_is_the_no_devices_error() {
    match require_devices(Vec::new()) {
        Err(e) => assert_eq!(e, BurnError::NoDevicesFound),
        Ok(_) => panic!("an empty catalog must not pass"),
    }
    assert!(!BurnError::NoDevicesFound.fatal());
}

#[test]
fn mismatch_is_fatal_and_distinct_from_write_failures() {
    let mismatch = BurnError::VerifyMismatch { expected: "a".to_string(), actual: "b".to_string() };
    assert!(mismatch.fatal());
    let exit = BurnError::SubprocessExitFailure { code: 1 };
    assert!(exit.fatal());
    assert_ne!(mismatch, exit);
    assert!(!BurnError::UserCancelled.fatal());
    assert!(!BurnError::NoDevicesFound.fatal());
    assert!(!BurnError::SizeMismatch { image_size: 2, device_size: 1 }.fatal());
    assert!(!exit.remediation().is_empty());
}
