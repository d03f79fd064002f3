//! The events that flow through a deck session: raw hardware input, the
//! application-level events callers hand in, and the notices both become.

use vstd::prelude::*;

verus! {

/// A point on the touch panel, in panel pixels.
#[derive(Clone, Copy, Debug, PartialEq, Eq, Structural)]
pub struct Point {
    pub x: u16,
    pub y: u16,
}

/// One decoded hardware state change, as the transport reports it.
///
/// The set is closed: a device without dials or a touch panel simply never
/// produces the variants it has no hardware for.
#[derive(Clone, Copy, Debug, PartialEq, Eq, Structural)]
pub enum InputEvent {
    /// A key went down; the field is the key index.
    KeyPressed(u8),
    /// A key came up; the field is the key index.
    KeyReleased(u8),
    /// A dial was turned by a signed number of ticks.
    DialRotated(u8, i8),
    /// A dial was pushed in.
    DialPressed(u8),
    /// A dial was let go.
    DialReleased(u8),
    /// A touch point was pressed.
    TouchPointPressed(u8),
    /// A touch point was released.
    TouchPointReleased(u8),
    /// The panel was tapped.
    PanelTouched(Point),
    /// The panel was pressed and held.
    PanelLongPressed(Point),
    /// The panel was swiped from the first point to the second.
    PanelSwiped(Point, Point),
}

/// An application-level event, built by a caller rather than read from the
/// hardware.
#[allow(non_camel_case_types)]
#[derive(Clone, Copy, Debug, PartialEq, Eq, Structural)]
pub enum DeckEvent {
    /// Health check.
    TEST,
    PLAY,
    PAUSE,
    NEXT,
    PREVIOUS,
}

/// How loudly a notice is reported.
#[derive(Clone, Copy, Debug, PartialEq, Eq, Structural)]
pub enum Level {
    Info,
    Warn,
    Error,
}

/// What the session hands to its consumers. Hardware input and events that a
/// caller emits travel the same path, as values of this one type.
#[derive(Clone, Copy, Debug, PartialEq, Eq, Structural)]
pub enum Notice {
    /// A key went down.
    KeyDown(u8),
    /// A key came up.
    KeyUp(u8),
    /// Hardware input that the session only forwards.
    Unhandled(InputEvent),
    /// An event that a caller emitted.
    Emitted(DeckEvent),
    /// The device could not be powered down.
    ShutdownFailed,
}

/// The notice that one hardware event is dispatched as.
pub open spec fn notice_of(event: InputEvent) -> Notice {
    match event {
        InputEvent::KeyPressed(key) => Notice::KeyDown(key),
        InputEvent::KeyReleased(key) => Notice::KeyUp(key),
        _ => Notice::Unhandled(event),
    }
}

/// The level a notice is reported at.
pub open spec fn level_of(notice: Notice) -> Level {
    match notice {
        Notice::KeyDown(_) => Level::Info,
        Notice::KeyUp(_) => Level::Info,
        Notice::Unhandled(_) => Level::Warn,
        Notice::Emitted(_) => Level::Info,
        Notice::ShutdownFailed => Level::Error,
    }
}

/// The stop signal of the decode loop: the release of the last key of a deck
/// with `key_count` keys. A deck without keys has no such event.
pub open spec fn is_sentinel(key_count: u8, event: InputEvent) -> bool {
    event matches InputEvent::KeyReleased(key) && key + 1 == key_count
}

/// Some event of the batch is the stop signal.
pub open spec fn has_sentinel(key_count: u8, batch: Seq<InputEvent>) -> bool {
    exists|i: int| 0 <= i < batch.len() && is_sentinel(key_count, #[trigger] batch[i])
}

/// None of the first `n` events of the batch is the stop signal.
pub open spec fn quiet_before(key_count: u8, batch: Seq<InputEvent>, n: int) -> bool {
    forall|j: int| 0 <= j < n && j < batch.len() ==> !is_sentinel(key_count, #[trigger] batch[j])
}

/// How many leading events of a batch are dispatched: all up to and including
/// the first stop signal, or the whole batch where it holds none.
pub open spec fn dispatched_len(key_count: u8, batch: Seq<InputEvent>) -> int {
    if has_sentinel(key_count, batch) {
        1 + choose|i: int|
            0 <= i < batch.len() && is_sentinel(key_count, #[trigger] batch[i]) && quiet_before(
                key_count,
                batch,
                i,
            )
    } else {
        batch.len() as int
    }
}

/// The notices a batch is dispatched as, in the order the events came.
pub open spec fn dispatched(key_count: u8, batch: Seq<InputEvent>) -> Seq<Notice> {
    Seq::new(dispatched_len(key_count, batch) as nat, |i: int| notice_of(batch[i]))
}

/// The result of mapping one batch of hardware events.
#[derive(Debug)]
pub struct Dispatch {
    /// The notices to hand on, in input order.
    pub notices: Vec<Notice>,
    /// Whether the batch held the stop signal.
    pub stop: bool,
}

impl InputEvent {
    /// Maps the event to the notice it is dispatched as.
    pub fn notice(&self) -> (notice: Notice)
        ensures
            notice == notice_of(*self),
    {
        match *self {
            InputEvent::KeyPressed(key) => Notice::KeyDown(key),
            InputEvent::KeyReleased(key) => Notice::KeyUp(key),
            other => Notice::Unhandled(other),
        }
    }

    /// Tells whether the event stops the decode loop of a deck with
    /// `key_count` keys: it does if and only if it is the release of key
    /// `key_count - 1`.
    pub fn is_sentinel(&self, key_count: u8) -> (stop: bool)
        ensures
            stop == is_sentinel(key_count, *self),
            stop <==> *self == InputEvent::KeyReleased((key_count - 1) as u8) && key_count >= 1,
    {
        match *self {
            InputEvent::KeyReleased(key) => key < key_count && key == key_count - 1,
            _ => false,
        }
    }
}

impl Notice {
    /// The level the notice is reported at: hardware input that is only
    /// forwarded is a warning, a failed power-down an error, the rest plain
    /// information.
    pub fn level(&self) -> (level: Level)
        ensures
            level == level_of(*self),
    {
        match *self {
            Notice::Unhandled(_) => Level::Warn,
            Notice::ShutdownFailed => Level::Error,
            _ => Level::Info,
        }
    }
}

impl DeckEvent {
    /// The line that reports the event once it has been emitted.
    pub open spec fn message_text(self) -> Seq<char> {
        match self {
            DeckEvent::PLAY => "Event play was emitted"@,
            DeckEvent::PAUSE => "Event pause was emitted"@,
            DeckEvent::NEXT => "Event next was emitted!"@,
            DeckEvent::PREVIOUS => "Event previous was emitted!"@,
            DeckEvent::TEST => "Health check event emitted!"@,
        }
    }

    /// Returns the line that reports the event once it has been emitted.
    pub fn message(&self) -> (text: &'static str)
        ensures
            text@ == self.message_text(),
    {
        match *self {
            DeckEvent::PLAY => "Event play was emitted",
            DeckEvent::PAUSE => "Event pause was emitted",
            DeckEvent::NEXT => "Event next was emitted!",
            DeckEvent::PREVIOUS => "Event previous was emitted!",
            DeckEvent::TEST => "Health check event emitted!",
        }
    }
}

/// The first stop signal of a batch, where there is one, is where
/// `dispatched_len` cuts: at index `i` if events `0..i` are quiet and event
/// `i` is the signal.
pub proof fn lemma_cut_at_first_sentinel(key_count: u8, batch: Seq<InputEvent>, i: int)
    requires
        0 <= i < batch.len(),
        is_sentinel(key_count, batch[i]),
        quiet_before(key_count, batch, i),
    ensures
        has_sentinel(key_count, batch),
        dispatched_len(key_count, batch) == i + 1,
{
    let c = choose|c: int|
        0 <= c < batch.len() && is_sentinel(key_count, #[trigger] batch[c]) && quiet_before(
            key_count,
            batch,
            c,
        );
    assert(c == i) by {
        if c < i {
            assert(!is_sentinel(key_count, batch[c]));
        }
        if i < c {
            assert(!is_sentinel(key_count, batch[i]));
        }
    }
}

/// A batch without the stop signal is dispatched whole.
pub proof fn lemma_quiet_batch_is_dispatched_whole(key_count: u8, batch: Seq<InputEvent>)
    requires
        quiet_before(key_count, batch, batch.len() as int),
    ensures
        !has_sentinel(key_count, batch),
        dispatched(key_count, batch) == batch.map_values(|event: InputEvent| notice_of(event)),
{
    assert(dispatched(key_count, batch) =~= batch.map_values(
        |event: InputEvent| notice_of(event),
    ));
}

/// The stop signal cuts its batch: where events `before` hold no stop signal
/// and the release of the last key follows them, all of `before` is
/// dispatched, in order, then the release itself, and nothing of `after`,
/// whatever it holds.
pub proof fn lemma_sentinel_cuts_batch(
    key_count: u8,
    before: Seq<InputEvent>,
    after: Seq<InputEvent>,
)
    requires
        key_count >= 1,
        quiet_before(key_count, before, before.len() as int),
    ensures
        has_sentinel(
            key_count,
            before + seq![InputEvent::KeyReleased((key_count - 1) as u8)] + after,
        ),
        dispatched(
            key_count,
            before + seq![InputEvent::KeyReleased((key_count - 1) as u8)] + after,
        ) == before.map_values(|event: InputEvent| notice_of(event)).push(
            Notice::KeyUp((key_count - 1) as u8),
        ),
{
    let signal = InputEvent::KeyReleased((key_count - 1) as u8);
    let batch = before + seq![signal] + after;
    let at = before.len() as int;
    assert(batch[at] == signal);
    assert forall|j: int| 0 <= j < at && j < batch.len() implies !is_sentinel(
        key_count,
        #[trigger] batch[j],
    ) by {
        assert(batch[j] == before[j]);
    }
    lemma_cut_at_first_sentinel(key_count, batch, at);
    let expected = before.map_values(|event: InputEvent| notice_of(event)).push(
        Notice::KeyUp((key_count - 1) as u8),
    );
    assert forall|i: int| 0 <= i < at + 1 implies dispatched(key_count, batch)[i]
        == expected[i] by {
        if i < at {
            assert(batch[i] == before[i]);
        }
    }
    assert(dispatched(key_count, batch) =~= expected);
}

/// Maps a whole batch, in input order. Every event before the first stop
/// signal is dispatched, then the signal itself; what follows it in the same
/// batch is dropped. A batch without the signal is dispatched whole.
pub fn dispatch_batch(key_count: u8, batch: &Vec<InputEvent>) -> (out: Dispatch)
    ensures
        out.stop == has_sentinel(key_count, batch@),
        out.notices@ == dispatched(key_count, batch@),
        out.notices@.len() <= batch@.len(),
        out.stop ==> out.notices@.len() >= 1 && is_sentinel(
            key_count,
            batch@[out.notices@.len() - 1],
        ),
        !out.stop ==> out.notices@.len() == batch@.len(),
        quiet_before(key_count, batch@, out.notices@.len() - 1),
{
    let mut notices: Vec<Notice> = Vec::new();
    let mut stop: bool = false;
    let mut i: usize = 0;
    while i < batch.len() && !stop
        invariant
            0 <= i <= batch.len(),
            notices@.len() == i,
            forall|j: int| 0 <= j < i ==> notices@[j] == notice_of(#[trigger] batch@[j]),
            !stop ==> quiet_before(key_count, batch@, i as int),
            stop ==> i >= 1 && is_sentinel(key_count, batch@[i - 1]) && quiet_before(
                key_count,
                batch@,
                i - 1,
            ),
        decreases batch.len() - i, if stop { 0int } else { 1int },
    {
        let event: InputEvent = batch[i];
        notices.push(event.notice());
        if event.is_sentinel(key_count) {
            stop = true;
        }
        i = i + 1;
    }
    proof {
        if stop {
            lemma_cut_at_first_sentinel(key_count, batch@, i - 1);
        } else {
            assert(!has_sentinel(key_count, batch@));
        }
        assert(notices@ =~= dispatched(key_count, batch@));
    }
    Dispatch { notices, stop }
}

} // verus!
