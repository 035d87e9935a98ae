use burn_engine::safety::confirm_scripted;
use burn_engine::safety::Confirmation;

#[test]
fn oversized_image_refused_without_prompting() {
    // image larger than device: no confirmation is ever requested
    let (authorized, prompts) = confirm_scripted(2_000_000_000, 1_000_000_000, &vec![true, true]);
    assert!(!authorized);
    assert_eq!(prompts, 0);
}

#[test]
fn first_decline_cancels_before_second_prompt() {
    let (authorized, prompts) = confirm_scripted(1_000_000, 2_000_000, &vec![false, true]);
    assert!(!authorized);
    assert_eq!(prompts, 1, "the second prompt is never evaluated");
}

#[test]
fn second_decline_cancels() {
    let (authorized, prompts) = confirm_scripted(1_000_000, 2_000_000, &vec![true, false]);
    assert!(!authorized);
    assert_eq!(prompts, 2);
}

#[test]
fn double_affirmative_authorizes() {
    let (authorized, prompts) = confirm_scripted(1_000_000, 2_000_000, &vec![true, true]);
    assert!(authorized);
    assert_eq!(prompts, 2);
}

#[test]
fn equal_sizes_still_fit() {
    let (authorized, _) = confirm_scripted(1_000_000, 1_000_000, &vec![true, true]);
    assert!(authorized);
}

#[test]
fn unanswered_prompt_does_not_authorize() {
    let (authorized, prompts) = confirm_scripted(1_000_000, 2_000_000, &vec![]);
    assert!(!authorized);
    assert_eq!(prompts, 0);
    let (authorized2, prompts2) = confirm_scripted(1_000_000, 2_000_000, &vec![true]);
    assert!(!authorized2);
    assert_eq!(prompts2, 1);
}

#[test]
fn protocol_stages_advance_as_answered() {
    let confirmed = Confirmation::begin(500, 1000);
    assert!(confirmed.needs_prompt());
    assert!(!confirmed.authorized());
    let after_first = confirmed.answer(true);
    assert!(after_first.needs_prompt());
    let done = after_first.answer(true);
    assert!(!done.needs_prompt());
    assert!(done.authorized());
}

#[test]
fn protocol_rejects_oversized_at_begin() {
    let confirmed = Confirmation::begin(1001, 1000);
    assert!(!confirmed.needs_prompt());
    assert!(!confirmed.authorized());
    assert_eq!(
        confirmed,
        Confirmation::SizeRejected { image_size: 1001, device_size: 1000 }
    );
}
