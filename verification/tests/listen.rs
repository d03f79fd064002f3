use deck_core::connect::Handshake;
use deck_core::deck::Deck;
use deck_core::event::{dispatch_batch, DeckEvent, InputEvent, Level, Notice, Point};
use deck_core::kind::DeckKind;
use deck_core::listen::{Listener, LoopInput, LoopState, READ_WAIT_SECS};

fn deck_with_keys(key_count: u8) -> Deck {
    let kind = DeckKind { key_count, has_dials: false, has_touch_strip: false, panel: None };
    let mut handshake = Handshake::begin(true, vec![kind]);
    handshake.opened();
    Deck::new(handshake).unwrap()
}

fn listener_with_keys(key_count: u8) -> Listener {
    deck_with_keys(key_count).listen().unwrap()
}

fn reading_listener(key_count: u8) -> Listener {
    let mut listener = listener_with_keys(key_count);
    listener.enter();
    listener
}

fn every_kind_of_event() -> Vec<InputEvent> {
    vec![
        InputEvent::KeyPressed(0),
        InputEvent::KeyReleased(0),
        InputEvent::DialRotated(1, -3),
        InputEvent::DialPressed(1),
        InputEvent::DialReleased(1),
        InputEvent::TouchPointPressed(0),
        InputEvent::TouchPointReleased(0),
        InputEvent::PanelTouched(Point { x: 10, y: 20 }),
        InputEvent::PanelLongPressed(Point { x: 30, y: 40 }),
        InputEvent::PanelSwiped(Point { x: 1, y: 2 }, Point { x: 300, y: 2 }),
    ]
}

#[test]
fn loop_starts_idle_and_reads_once_entered() {
    let mut listener = listener_with_keys(18);
    assert_eq!(listener.state(), LoopState::Idle);
    assert_eq!(listener.key_count(), 18);
    listener.enter();
    assert_eq!(listener.state(), LoopState::Reading);
    listener.enter();
    assert_eq!(listener.state(), LoopState::Reading);
}

#[test]
fn read_waits_ten_seconds() {
    assert_eq!(READ_WAIT_SECS, 10);
}

#[test]
fn transitions_are_the_five_edges_and_no_others() {
    let states = [LoopState::Idle, LoopState::Reading, LoopState::Dispatching, LoopState::Terminated];
    let inputs = [
        LoopInput::Entered,
        LoopInput::BatchRead,
        LoopInput::ReadFailed,
        LoopInput::BatchMapped,
        LoopInput::SentinelSeen,
    ];
    for state in states {
        for input in inputs {
            let expected = match (state, input) {
                (LoopState::Idle, LoopInput::Entered) => LoopState::Reading,
                (LoopState::Reading, LoopInput::BatchRead) => LoopState::Dispatching,
                (LoopState::Reading, LoopInput::ReadFailed) => LoopState::Terminated,
                (LoopState::Dispatching, LoopInput::BatchMapped) => LoopState::Reading,
                (LoopState::Dispatching, LoopInput::SentinelSeen) => LoopState::Terminated,
                _ => state,
            };
            assert_eq!(state.next(input), expected);
        }
    }
}

#[test]
fn terminated_is_absorbing() {
    let inputs = [
        LoopInput::Entered,
        LoopInput::BatchRead,
        LoopInput::ReadFailed,
        LoopInput::BatchMapped,
        LoopInput::SentinelSeen,
    ];
    for input in inputs {
        assert_eq!(LoopState::Terminated.next(input), LoopState::Terminated);
    }
}

#[test]
fn batch_is_dispatched_in_input_order() {
    let mut listener = reading_listener(18);
    let batch = every_kind_of_event();
    let notices = listener.on_batch(&batch);
    let expected = vec![
        Notice::KeyDown(0),
        Notice::KeyUp(0),
        Notice::Unhandled(InputEvent::DialRotated(1, -3)),
        Notice::Unhandled(InputEvent::DialPressed(1)),
        Notice::Unhandled(InputEvent::DialReleased(1)),
        Notice::Unhandled(InputEvent::TouchPointPressed(0)),
        Notice::Unhandled(InputEvent::TouchPointReleased(0)),
        Notice::Unhandled(InputEvent::PanelTouched(Point { x: 10, y: 20 })),
        Notice::Unhandled(InputEvent::PanelLongPressed(Point { x: 30, y: 40 })),
        Notice::Unhandled(InputEvent::PanelSwiped(Point { x: 1, y: 2 }, Point { x: 300, y: 2 })),
    ];
    assert_eq!(notices, expected);
    assert_eq!(listener.state(), LoopState::Reading);
}

#[test]
fn empty_batch_dispatches_nothing_and_reads_on() {
    let mut listener = reading_listener(18);
    assert_eq!(listener.on_batch(&vec![]), vec![]);
    assert_eq!(listener.state(), LoopState::Reading);
}

#[test]
fn batches_are_taken_one_after_the_other() {
    let mut listener = reading_listener(6);
    let first = listener.on_batch(&vec![InputEvent::KeyPressed(2)]);
    let second = listener.on_batch(&vec![InputEvent::KeyReleased(2), InputEvent::KeyPressed(3)]);
    assert_eq!(first, vec![Notice::KeyDown(2)]);
    assert_eq!(second, vec![Notice::KeyUp(2), Notice::KeyDown(3)]);
    assert_eq!(listener.state(), LoopState::Reading);
}

#[test]
fn release_of_the_last_key_terminates_the_loop() {
    let mut listener = reading_listener(18);
    let notices = listener.on_batch(&vec![InputEvent::KeyReleased(17)]);
    assert_eq!(notices, vec![Notice::KeyUp(17)]);
    assert_eq!(listener.state(), LoopState::Terminated);
}

#[test]
fn press_of_the_last_key_does_not_terminate_the_loop() {
    let mut listener = reading_listener(18);
    let notices = listener.on_batch(&vec![InputEvent::KeyPressed(17)]);
    assert_eq!(notices, vec![Notice::KeyDown(17)]);
    assert_eq!(listener.state(), LoopState::Reading);
}

#[test]
fn release_of_any_other_key_does_not_terminate_the_loop() {
    for key in (0..=255u8).filter(|key| *key != 17) {
        let mut listener = reading_listener(18);
        let notices = listener.on_batch(&vec![InputEvent::KeyReleased(key)]);
        assert_eq!(notices, vec![Notice::KeyUp(key)]);
        assert_eq!(listener.state(), LoopState::Reading);
    }
}

#[test]
fn no_other_event_terminates_the_loop() {
    for key_count in [1u8, 2, 18] {
        let last = key_count - 1;
        let events = vec![
            InputEvent::KeyPressed(last),
            InputEvent::DialRotated(last, 1),
            InputEvent::DialPressed(last),
            InputEvent::DialReleased(last),
            InputEvent::TouchPointPressed(last),
            InputEvent::TouchPointReleased(last),
            InputEvent::PanelTouched(Point { x: last as u16, y: last as u16 }),
        ];
        for event in events {
            assert!(!event.is_sentinel(key_count));
            let mut listener = reading_listener(key_count);
            listener.on_batch(&vec![event]);
            assert_eq!(listener.state(), LoopState::Reading);
        }
        assert!(InputEvent::KeyReleased(last).is_sentinel(key_count));
    }
}

#[test]
fn sentinel_follows_the_number_of_keys() {
    assert!(InputEvent::KeyReleased(0).is_sentinel(1));
    assert!(InputEvent::KeyReleased(5).is_sentinel(6));
    assert!(InputEvent::KeyReleased(254).is_sentinel(255));
    assert!(!InputEvent::KeyReleased(5).is_sentinel(5));
    assert!(!InputEvent::KeyReleased(5).is_sentinel(7));
    assert!(!InputEvent::KeyReleased(255).is_sentinel(255));
}

#[test]
fn deck_without_keys_has_no_sentinel() {
    for key in 0..=255u8 {
        assert!(!InputEvent::KeyReleased(key).is_sentinel(0));
    }
    let out = dispatch_batch(0, &vec![InputEvent::KeyReleased(0), InputEvent::KeyReleased(255)]);
    assert!(!out.stop);
    assert_eq!(out.notices.len(), 2);
}

#[test]
fn sentinel_inside_a_batch_cuts_the_batch_there() {
    let mut listener = reading_listener(18);
    let batch = vec![
        InputEvent::KeyPressed(3),
        InputEvent::DialRotated(0, 2),
        InputEvent::KeyReleased(17),
        InputEvent::KeyPressed(4),
        InputEvent::KeyReleased(4),
    ];
    let notices = listener.on_batch(&batch);
    assert_eq!(
        notices,
        vec![
            Notice::KeyDown(3),
            Notice::Unhandled(InputEvent::DialRotated(0, 2)),
            Notice::KeyUp(17),
        ]
    );
    assert_eq!(listener.state(), LoopState::Terminated);
}

#[test]
fn only_the_first_sentinel_of_a_batch_counts() {
    let out = dispatch_batch(
        6,
        &vec![InputEvent::KeyReleased(5), InputEvent::KeyPressed(1), InputEvent::KeyReleased(5)],
    );
    assert!(out.stop);
    assert_eq!(out.notices, vec![Notice::KeyUp(5)]);
}

#[test]
fn batch_without_sentinel_is_dispatched_whole() {
    let out = dispatch_batch(6, &vec![InputEvent::KeyPressed(5), InputEvent::KeyReleased(4)]);
    assert!(!out.stop);
    assert_eq!(out.notices, vec![Notice::KeyDown(5), Notice::KeyUp(4)]);
}

#[test]
fn read_error_terminates_the_loop() {
    let mut listener = reading_listener(18);
    listener.read_failed();
    assert_eq!(listener.state(), LoopState::Terminated);
}

#[test]
fn nothing_is_dispatched_after_a_read_error() {
    let mut listener = reading_listener(18);
    listener.read_failed();
    assert_eq!(listener.on_batch(&every_kind_of_event()), vec![]);
    assert_eq!(listener.state(), LoopState::Terminated);
    listener.enter();
    assert_eq!(listener.state(), LoopState::Terminated);
}

#[test]
fn nothing_is_dispatched_after_the_sentinel() {
    let mut listener = reading_listener(3);
    listener.on_batch(&vec![InputEvent::KeyReleased(2)]);
    assert_eq!(listener.on_batch(&vec![InputEvent::KeyPressed(0)]), vec![]);
    assert_eq!(listener.state(), LoopState::Terminated);
    listener.read_failed();
    assert_eq!(listener.state(), LoopState::Terminated);
}

#[test]
fn idle_loop_takes_no_batch_and_no_error() {
    let mut listener = listener_with_keys(3);
    assert_eq!(listener.on_batch(&vec![InputEvent::KeyReleased(2)]), vec![]);
    assert_eq!(listener.state(), LoopState::Idle);
    listener.read_failed();
    assert_eq!(listener.state(), LoopState::Idle);
}

#[test]
fn notices_have_their_levels() {
    assert_eq!(Notice::KeyDown(0).level(), Level::Info);
    assert_eq!(Notice::KeyUp(0).level(), Level::Info);
    assert_eq!(Notice::Unhandled(InputEvent::DialPressed(0)).level(), Level::Warn);
    assert_eq!(Notice::Emitted(DeckEvent::TEST).level(), Level::Info);
    assert_eq!(Notice::ShutdownFailed.level(), Level::Error);
}

#[test]
fn events_map_to_their_notices() {
    assert_eq!(InputEvent::KeyPressed(9).notice(), Notice::KeyDown(9));
    assert_eq!(InputEvent::KeyReleased(9).notice(), Notice::KeyUp(9));
    let turned = InputEvent::DialRotated(2, -128);
    assert_eq!(turned.notice(), Notice::Unhandled(turned));
}

#[test]
fn emitted_events_have_their_messages() {
    assert_eq!(DeckEvent::PLAY.message(), "Event play was emitted");
    assert_eq!(DeckEvent::PAUSE.message(), "Event pause was emitted");
    assert_eq!(DeckEvent::NEXT.message(), "Event next was emitted!");
    assert_eq!(DeckEvent::PREVIOUS.message(), "Event previous was emitted!");
    assert_eq!(DeckEvent::TEST.message(), "Health check event emitted!");
}
