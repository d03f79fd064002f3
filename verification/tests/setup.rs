use deck_core::connect::Handshake;
use deck_core::deck::Deck;
use deck_core::kind::DeckKind;
use deck_core::setup::{Outcome, Progress, Script, Setup, SetupError, Step, BRIGHTNESS};

fn deck_with_keys(key_count: u8) -> Deck {
    let kind = DeckKind { key_count, has_dials: false, has_touch_strip: false, panel: None };
    let mut handshake = Handshake::begin(true, vec![kind]);
    handshake.opened();
    Deck::new(handshake).unwrap()
}

/// Runs a sequence to its end. `report` says how each step ends; the steps
/// come back in the order in which they were asked for.
fn drive(mut setup: Setup, report: fn(Step) -> Outcome) -> (Vec<Step>, Setup) {
    let mut steps = Vec::new();
    while let Progress::Pending(step) = setup.progress() {
        steps.push(step);
        setup.advance(report(step));
    }
    (steps, setup)
}

fn all_done(_step: Step) -> Outcome {
    Outcome::Done
}

#[test]
fn reset_of_an_eighteen_key_deck_runs_twenty_one_steps_in_order() {
    let (steps, setup) = drive(deck_with_keys(18).reset(), all_done);
    let mut expected = vec![Step::Background, Step::Brightness(50)];
    for key in 0..18u8 {
        expected.push(Step::KeyImage(key));
    }
    expected.push(Step::Flush);
    assert_eq!(steps, expected);
    assert_eq!(steps.len(), 21);
    assert_eq!(setup.progress(), Progress::Finished);
    assert_eq!(setup.result(), Some(Ok(())));
}

#[test]
fn reset_sets_the_brightness_to_fifty_percent() {
    assert_eq!(BRIGHTNESS, 50);
    let mut setup = deck_with_keys(6).reset();
    setup.advance(Outcome::Done);
    assert_eq!(setup.progress(), Progress::Pending(Step::Brightness(50)));
}

#[test]
fn reset_starts_with_the_background() {
    let setup = deck_with_keys(6).reset();
    assert_eq!(setup.progress(), Progress::Pending(Step::Background));
    assert_eq!(setup.script(), Script::Reset);
    assert_eq!(setup.key_count(), 6);
    assert_eq!(setup.result(), None);
}

#[test]
fn bare_reset_clears_the_keys_instead_of_pushing_images() {
    let (steps, setup) = drive(deck_with_keys(18).reset_bare(), all_done);
    assert_eq!(steps, vec![Step::Background, Step::Brightness(50), Step::ClearKeys, Step::Flush]);
    assert_eq!(setup.result(), Some(Ok(())));
}

#[test]
fn reset_of_a_deck_without_keys_pushes_no_key_image() {
    let (steps, setup) = drive(deck_with_keys(0).reset(), all_done);
    assert_eq!(steps, vec![Step::Background, Step::Brightness(50), Step::Flush]);
    assert_eq!(setup.result(), Some(Ok(())));
}

#[test]
fn reset_of_the_largest_deck_ends_after_the_last_key() {
    let (steps, setup) = drive(deck_with_keys(255).reset(), all_done);
    assert_eq!(steps.len(), 258);
    assert_eq!(steps[256], Step::KeyImage(254));
    assert_eq!(steps[257], Step::Flush);
    assert_eq!(setup.result(), Some(Ok(())));
}

#[test]
fn missing_key_image_is_passed_over() {
    fn report(step: Step) -> Outcome {
        match step {
            Step::KeyImage(2) => Outcome::Missing,
            _ => Outcome::Done,
        }
    }
    let (steps, setup) = drive(deck_with_keys(6).reset(), report);
    let (all, _) = drive(deck_with_keys(6).reset(), all_done);
    assert_eq!(steps, all);
    assert!(steps.contains(&Step::KeyImage(3)));
    assert!(steps.contains(&Step::KeyImage(5)));
    assert_eq!(steps.last(), Some(&Step::Flush));
    assert_eq!(setup.result(), Some(Ok(())));
}

#[test]
fn reset_goes_through_when_every_key_image_is_missing() {
    fn report(step: Step) -> Outcome {
        match step {
            Step::KeyImage(_) => Outcome::Missing,
            _ => Outcome::Done,
        }
    }
    let (steps, setup) = drive(deck_with_keys(6).reset(), report);
    assert_eq!(steps.len(), 9);
    assert_eq!(setup.result(), Some(Ok(())));
}

#[test]
fn missing_last_key_image_still_leads_to_the_flush() {
    let mut setup = deck_with_keys(3).reset();
    for _ in 0..4 {
        setup.advance(Outcome::Done);
    }
    assert_eq!(setup.progress(), Progress::Pending(Step::KeyImage(2)));
    setup.advance(Outcome::Missing);
    assert_eq!(setup.progress(), Progress::Pending(Step::Flush));
}

#[test]
fn io_error_on_a_key_image_ends_the_reset() {
    fn report(step: Step) -> Outcome {
        match step {
            Step::KeyImage(2) => Outcome::Failed,
            _ => Outcome::Done,
        }
    }
    let (steps, setup) = drive(deck_with_keys(6).reset(), report);
    assert_eq!(
        steps,
        vec![
            Step::Background,
            Step::Brightness(50),
            Step::KeyImage(0),
            Step::KeyImage(1),
            Step::KeyImage(2),
        ]
    );
    assert_eq!(setup.progress(), Progress::Aborted(SetupError::Io(Step::KeyImage(2))));
    assert_eq!(setup.result(), Some(Err(SetupError::Io(Step::KeyImage(2)))));
}

#[test]
fn io_error_ends_the_reset_at_any_step() {
    for failing in 0..9usize {
        let mut setup = deck_with_keys(6).reset();
        let mut asked = 0;
        let mut failed_step = None;
        while let Progress::Pending(step) = setup.progress() {
            if asked == failing {
                failed_step = Some(step);
                setup.advance(Outcome::Failed);
            } else {
                setup.advance(Outcome::Done);
            }
            asked += 1;
        }
        assert_eq!(asked, failing + 1);
        assert_eq!(setup.result(), Some(Err(SetupError::Io(failed_step.unwrap()))));
    }
}

#[test]
fn missing_background_ends_the_reset() {
    let mut setup = deck_with_keys(6).reset();
    setup.advance(Outcome::Missing);
    assert_eq!(setup.progress(), Progress::Aborted(SetupError::AssetMissing(Step::Background)));
    assert_eq!(setup.result(), Some(Err(SetupError::AssetMissing(Step::Background))));
}

#[test]
fn aborted_run_takes_no_more_reports() {
    let mut setup = deck_with_keys(6).reset();
    setup.advance(Outcome::Failed);
    let aborted = setup;
    setup.advance(Outcome::Done);
    assert_eq!(setup, aborted);
    setup.advance(Outcome::Missing);
    assert_eq!(setup, aborted);
    setup.advance(Outcome::Failed);
    assert_eq!(setup, aborted);
    assert_eq!(setup.result(), Some(Err(SetupError::Io(Step::Background))));
}

#[test]
fn finished_run_takes_no_more_reports() {
    let (_, mut setup) = drive(deck_with_keys(2).reset(), all_done);
    setup.advance(Outcome::Failed);
    assert_eq!(setup.progress(), Progress::Finished);
    assert_eq!(setup.result(), Some(Ok(())));
}

#[test]
fn key_test_shows_a_sample_on_every_key_and_flushes() {
    let (steps, setup) = drive(deck_with_keys(4).test_keys(), all_done);
    assert_eq!(
        steps,
        vec![
            Step::SampleImage(0),
            Step::SampleImage(1),
            Step::SampleImage(2),
            Step::SampleImage(3),
            Step::Flush,
        ]
    );
    assert_eq!(setup.script(), Script::TestKeys);
    assert_eq!(setup.result(), Some(Ok(())));
}

#[test]
fn key_test_does_not_pass_over_a_missing_sample() {
    let mut setup = deck_with_keys(4).test_keys();
    setup.advance(Outcome::Done);
    setup.advance(Outcome::Missing);
    assert_eq!(
        setup.result(),
        Some(Err(SetupError::AssetMissing(Step::SampleImage(1))))
    );
}

#[test]
fn key_test_ends_on_an_io_error() {
    let mut setup = deck_with_keys(4).test_keys();
    setup.advance(Outcome::Failed);
    assert_eq!(setup.result(), Some(Err(SetupError::Io(Step::SampleImage(0)))));
}

#[test]
fn key_test_of_a_deck_without_keys_only_flushes() {
    let (steps, _) = drive(deck_with_keys(0).test_keys(), all_done);
    assert_eq!(steps, vec![Step::Flush]);
}

#[test]
fn io_error_on_the_flush_is_the_result() {
    let mut setup = Setup::begin(Script::ResetBare, 6);
    for _ in 0..3 {
        setup.advance(Outcome::Done);
    }
    assert_eq!(setup.progress(), Progress::Pending(Step::Flush));
    setup.advance(Outcome::Failed);
    assert_eq!(setup.result(), Some(Err(SetupError::Io(Step::Flush))));
}

#[test]
fn steps_name_the_assets_they_load() {
    assert_eq!(Step::Background.asset(), Some(String::from("assets/background/default.jpg")));
    assert_eq!(
        Step::KeyImage(0).asset(),
        Some(String::from("assets/icons/actions/action_0.png"))
    );
    assert_eq!(
        Step::KeyImage(17).asset(),
        Some(String::from("assets/icons/actions/action_17.png"))
    );
    assert_eq!(
        Step::KeyImage(255).asset(),
        Some(String::from("assets/icons/actions/action_255.png"))
    );
    assert_eq!(Step::Brightness(50).asset(), None);
    assert_eq!(Step::ClearKeys.asset(), None);
    assert_eq!(Step::Flush.asset(), None);
}

#[test]
fn samples_are_numbered_from_one_and_repeat_after_ten() {
    assert_eq!(Step::SampleImage(0).asset(), Some(String::from("assets/icons/samples/1.png")));
    assert_eq!(Step::SampleImage(8).asset(), Some(String::from("assets/icons/samples/9.png")));
    assert_eq!(Step::SampleImage(9).asset(), Some(String::from("assets/icons/samples/10.png")));
    assert_eq!(Step::SampleImage(10).asset(), Some(String::from("assets/icons/samples/1.png")));
    assert_eq!(Step::SampleImage(17).asset(), Some(String::from("assets/icons/samples/8.png")));
    assert_eq!(Step::SampleImage(255).asset(), Some(String::from("assets/icons/samples/6.png")));
}
