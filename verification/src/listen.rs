//! The decode loop as a state machine. The task that owns the transport's
//! read side drives it: it enters the loop, reads, and reports each batch or
//! the read error; the machine says what is dispatched and when to stop.

use vstd::prelude::*;
use crate::event::{InputEvent, Notice, dispatch_batch, dispatched, has_sentinel, is_sentinel};

verus! {

/// How long one read waits for the next batch, in seconds.
pub const READ_WAIT_SECS: u8 = 10;

/// Where the decode loop stands.
#[derive(Clone, Copy, Debug, PartialEq, Eq, Structural)]
pub enum LoopState {
    /// Created, not yet entered.
    Idle,
    /// Waiting for the next batch.
    Reading,
    /// Mapping the events of a batch.
    Dispatching,
    /// Stopped, for good.
    Terminated,
}

/// What moves the decode loop along.
#[derive(Clone, Copy, Debug, PartialEq, Eq, Structural)]
pub enum LoopInput {
    /// The task entered the loop.
    Entered,
    /// A read returned a batch.
    BatchRead,
    /// A read failed.
    ReadFailed,
    /// Every event of the batch was mapped and none was the stop signal.
    BatchMapped,
    /// The stop signal was mapped.
    SentinelSeen,
}

/// The transitions of the decode loop. An input for which the state has no
/// edge leaves the state as it is; `Terminated` has no edge at all.
pub open spec fn loop_next(state: LoopState, input: LoopInput) -> LoopState {
    match (state, input) {
        (LoopState::Idle, LoopInput::Entered) => LoopState::Reading,
        (LoopState::Reading, LoopInput::BatchRead) => LoopState::Dispatching,
        (LoopState::Reading, LoopInput::ReadFailed) => LoopState::Terminated,
        (LoopState::Dispatching, LoopInput::BatchMapped) => LoopState::Reading,
        (LoopState::Dispatching, LoopInput::SentinelSeen) => LoopState::Terminated,
        _ => state,
    }
}

/// The input that ends the mapping of a batch.
pub open spec fn batch_end(key_count: u8, batch: Seq<InputEvent>) -> LoopInput {
    if has_sentinel(key_count, batch) {
        LoopInput::SentinelSeen
    } else {
        LoopInput::BatchMapped
    }
}

/// The state after a batch was handed to a loop in `state`: a reading loop
/// takes the batch, maps it and reads on or stops; any other loop ignores it.
pub open spec fn after_batch(state: LoopState, key_count: u8, batch: Seq<InputEvent>) -> LoopState {
    if state is Reading {
        loop_next(loop_next(state, LoopInput::BatchRead), batch_end(key_count, batch))
    } else {
        state
    }
}

/// The notices a loop in `state` dispatches for a batch: a reading loop
/// dispatches through the first stop signal, any other loop nothing.
pub open spec fn notices_of_batch(state: LoopState, key_count: u8, batch: Seq<InputEvent>) -> Seq<
    Notice,
> {
    if state is Reading {
        dispatched(key_count, batch)
    } else {
        Seq::empty()
    }
}

impl LoopState {
    /// Takes one transition of the decode loop.
    pub fn next(self, input: LoopInput) -> (state: LoopState)
        ensures
            state == loop_next(self, input),
    {
        match (self, input) {
            (LoopState::Idle, LoopInput::Entered) => LoopState::Reading,
            (LoopState::Reading, LoopInput::BatchRead) => LoopState::Dispatching,
            (LoopState::Reading, LoopInput::ReadFailed) => LoopState::Terminated,
            (LoopState::Dispatching, LoopInput::BatchMapped) => LoopState::Reading,
            (LoopState::Dispatching, LoopInput::SentinelSeen) => LoopState::Terminated,
            (state, _) => state,
        }
    }
}

/// The decode loop of one session: the number of keys of its deck, which
/// fixes the stop signal, and the state of the loop.
#[derive(Debug)]
pub struct Listener {
    key_count: u8,
    state: LoopState,
}

impl Listener {
    /// The number of keys of the deck this loop decodes for.
    pub closed spec fn keys(&self) -> u8 {
        self.key_count
    }

    /// Where the loop stands.
    pub closed spec fn phase(&self) -> LoopState {
        self.state
    }

    /// Makes the loop of a deck with `key_count` keys, not yet entered.
    pub(crate) fn new(key_count: u8) -> (listener: Listener)
        ensures
            listener.keys() == key_count,
            listener.phase() == LoopState::Idle,
    {
        Listener { key_count, state: LoopState::Idle }
    }

    /// Returns the number of keys of the deck this loop decodes for.
    #[verifier::when_used_as_spec(keys)]
    pub fn key_count(&self) -> (count: u8)
        ensures
            count == self.keys(),
    {
        self.key_count
    }

    /// Returns where the loop stands. The owner reads while this is
    /// `Reading` and is done once it is `Terminated`.
    #[verifier::when_used_as_spec(phase)]
    pub fn state(&self) -> (state: LoopState)
        ensures
            state == self.phase(),
    {
        self.state
    }

    /// Enters the loop: an idle loop starts reading, any other stays as it is.
    pub fn enter(&mut self)
        ensures
            final(self).keys() == old(self).keys(),
            final(self).phase() == loop_next(old(self).phase(), LoopInput::Entered),
    {
        self.state = self.state.next(LoopInput::Entered);
    }

    /// Reports that a read failed. The failure is fatal: a reading loop
    /// terminates and dispatches nothing more.
    pub fn read_failed(&mut self)
        ensures
            final(self).keys() == old(self).keys(),
            final(self).phase() == loop_next(old(self).phase(), LoopInput::ReadFailed),
    {
        self.state = self.state.next(LoopInput::ReadFailed);
    }

    /// Hands the loop the batch that a read returned and gives back the
    /// notices to dispatch, in input order. A reading loop maps the events up
    /// to and including the first stop signal and terminates there; without
    /// one it maps the whole batch and reads on. A loop that is not reading
    /// dispatches nothing and stays as it is.
    pub fn on_batch(&mut self, batch: &Vec<InputEvent>) -> (notices: Vec<Notice>)
        ensures
            final(self).keys() == old(self).keys(),
            final(self).phase() == after_batch(old(self).phase(), old(self).keys(), batch@),
            notices@ == notices_of_batch(old(self).phase(), old(self).keys(), batch@),
    {
        match self.state {
            LoopState::Reading => {
                self.state = self.state.next(LoopInput::BatchRead);
                let out = dispatch_batch(self.key_count, batch);
                if out.stop {
                    self.state = self.state.next(LoopInput::SentinelSeen);
                } else {
                    self.state = self.state.next(LoopInput::BatchMapped);
                }
                out.notices
            },
            _ => Vec::new(),
        }
    }
}

/// `Terminated` is absorbing: no input moves the loop out of it.
pub proof fn lemma_terminated_is_absorbing(input: LoopInput)
    ensures
        loop_next(LoopState::Terminated, input) == LoopState::Terminated,
{
}

/// The loop changes state along five edges and no others: idle to reading on
/// entry, reading to dispatching on a batch, reading to terminated on a read
/// error, dispatching to reading once a batch is mapped, dispatching to
/// terminated on the stop signal.
pub proof fn lemma_loop_edges(state: LoopState, input: LoopInput)
    ensures
        loop_next(state, input) != state <==> {
            ||| (state == LoopState::Idle && input == LoopInput::Entered)
            ||| (state == LoopState::Reading && input == LoopInput::BatchRead)
            ||| (state == LoopState::Reading && input == LoopInput::ReadFailed)
            ||| (state == LoopState::Dispatching && input == LoopInput::BatchMapped)
            ||| (state == LoopState::Dispatching && input == LoopInput::SentinelSeen)
        },
{
}

/// A read error ends a reading loop, and from then on no batch is dispatched
/// and no batch changes the state.
pub proof fn lemma_read_error_is_final(key_count: u8, batch: Seq<InputEvent>)
    ensures
        loop_next(LoopState::Reading, LoopInput::ReadFailed) == LoopState::Terminated,
        after_batch(LoopState::Terminated, key_count, batch) == LoopState::Terminated,
        notices_of_batch(LoopState::Terminated, key_count, batch) == Seq::<Notice>::empty(),
{
}

/// A reading loop is terminated by a batch if and only if the batch holds the
/// stop signal; otherwise it goes back to reading.
pub proof fn lemma_batch_outcome(key_count: u8, batch: Seq<InputEvent>)
    ensures
        has_sentinel(key_count, batch) ==> after_batch(LoopState::Reading, key_count, batch)
            == LoopState::Terminated,
        !has_sentinel(key_count, batch) ==> after_batch(LoopState::Reading, key_count, batch)
            == LoopState::Reading,
{
}

/// The stop signal is the release of the last key and nothing else: of all
/// single events, only `KeyReleased(key_count - 1)` terminates a reading
/// loop. The press of that key does not, nor the release of any other key.
pub proof fn lemma_sentinel_always_and_only(key_count: u8, event: InputEvent)
    ensures
        after_batch(LoopState::Reading, key_count, seq![event]) == LoopState::Terminated <==> (
        key_count >= 1 && event == InputEvent::KeyReleased((key_count - 1) as u8)),
        after_batch(LoopState::Reading, key_count, seq![event]) != LoopState::Terminated
            ==> after_batch(LoopState::Reading, key_count, seq![event]) == LoopState::Reading,
        event is KeyPressed ==> after_batch(LoopState::Reading, key_count, seq![event])
            == LoopState::Reading,
{
    let batch = seq![event];
    assert(batch[0] == event);
    if is_sentinel(key_count, event) {
        assert(has_sentinel(key_count, batch));
    } else {
        assert(!has_sentinel(key_count, batch));
    }
}

/// What one read of the transport came to.
pub enum Read {
    /// The read returned this batch.
    Batch(Seq<InputEvent>),
    /// The read failed.
    Failed,
}

/// The state of a loop in `state` after one read.
pub open spec fn after_read(state: LoopState, key_count: u8, read: Read) -> LoopState {
    match read {
        Read::Batch(batch) => after_batch(state, key_count, batch),
        Read::Failed => loop_next(state, LoopInput::ReadFailed),
    }
}

/// The notices a loop in `state` dispatches for one read.
pub open spec fn notices_of_read(state: LoopState, key_count: u8, read: Read) -> Seq<Notice> {
    match read {
        Read::Batch(batch) => notices_of_batch(state, key_count, batch),
        Read::Failed => Seq::empty(),
    }
}

/// The state of a loop that started in `state` after the given reads, the
/// first read first.
pub open spec fn run_state(state: LoopState, key_count: u8, reads: Seq<Read>) -> LoopState
    decreases reads.len(),
{
    if reads.len() == 0 {
        state
    } else {
        after_read(run_state(state, key_count, reads.drop_last()), key_count, reads.last())
    }
}

/// Everything a loop that started in `state` dispatches over the given
/// reads: the notices of the first read, then those of the second, and so on.
pub open spec fn run_notices(state: LoopState, key_count: u8, reads: Seq<Read>) -> Seq<Notice>
    decreases reads.len(),
{
    if reads.len() == 0 {
        Seq::empty()
    } else {
        run_notices(state, key_count, reads.drop_last()) + notices_of_read(
            run_state(state, key_count, reads.drop_last()),
            key_count,
            reads.last(),
        )
    }
}

/// Between reads a loop that was entered is reading or terminated: it never
/// rests in `Dispatching` and never goes back to `Idle`.
pub proof fn lemma_run_rests_reading_or_terminated(key_count: u8, reads: Seq<Read>)
    ensures
        run_state(LoopState::Reading, key_count, reads) is Reading || run_state(
            LoopState::Reading,
            key_count,
            reads,
        ) is Terminated,
    decreases reads.len(),
{
    if reads.len() > 0 {
        lemma_run_rests_reading_or_terminated(key_count, reads.drop_last());
    }
}

/// Once the loop has terminated, at whatever point of a run, it stays
/// terminated and dispatches nothing more: the notices of the whole run are
/// those of the reads up to that point.
pub proof fn lemma_run_ends_at_termination(
    state: LoopState,
    key_count: u8,
    reads: Seq<Read>,
    at: int,
)
    requires
        0 <= at <= reads.len(),
        run_state(state, key_count, reads.take(at)) is Terminated,
    ensures
        run_state(state, key_count, reads) is Terminated,
        run_notices(state, key_count, reads) == run_notices(state, key_count, reads.take(at)),
    decreases reads.len() - at,
{
    if at == reads.len() {
        assert(reads.take(at) =~= reads);
    } else {
        let shorter = reads.drop_last();
        assert(shorter.take(at) =~= reads.take(at));
        lemma_run_ends_at_termination(state, key_count, shorter, at);
        assert(run_notices(state, key_count, reads) =~= run_notices(state, key_count, shorter));
    }
}

/// A read error ends the run: whatever was read before it, a reading loop
/// is terminated by the error, and of the reads that follow nothing is
/// dispatched.
pub proof fn lemma_read_error_ends_run(key_count: u8, before: Seq<Read>, after: Seq<Read>)
    requires
        run_state(LoopState::Reading, key_count, before) is Reading,
    ensures
        run_state(LoopState::Reading, key_count, before + seq![Read::Failed] + after)
            is Terminated,
        run_notices(LoopState::Reading, key_count, before + seq![Read::Failed] + after)
            == run_notices(LoopState::Reading, key_count, before),
{
    let reads = before + seq![Read::Failed] + after;
    let at = before.len() as int + 1;
    let upto = reads.take(at);
    assert(upto.drop_last() =~= before);
    assert(upto.last() == Read::Failed);
    lemma_run_ends_at_termination(LoopState::Reading, key_count, reads, at);
    assert(run_notices(LoopState::Reading, key_count, upto) =~= run_notices(
        LoopState::Reading,
        key_count,
        before,
    ));
}

/// A batch read while the loop is reading is dispatched right behind
/// everything dispatched before it, and moves the loop on as the batch
/// says: to `Terminated` with the stop signal, back to `Reading` without.
pub proof fn lemma_batch_extends_run(key_count: u8, before: Seq<Read>, batch: Seq<InputEvent>)
    requires
        run_state(LoopState::Reading, key_count, before) is Reading,
    ensures
        run_notices(LoopState::Reading, key_count, before.push(Read::Batch(batch)))
            == run_notices(LoopState::Reading, key_count, before) + dispatched(key_count, batch),
        run_state(LoopState::Reading, key_count, before.push(Read::Batch(batch))) == if has_sentinel(
            key_count,
            batch,
        ) {
            LoopState::Terminated
        } else {
            LoopState::Reading
        },
{
    let reads = before.push(Read::Batch(batch));
    assert(reads.drop_last() =~= before);
    assert(reads.last() == Read::Batch(batch));
}

} // verus!
