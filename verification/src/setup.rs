//! The setup sequences of a session: the reset of the device and the key
//! test. A sequence is a short script of steps against the transport. The
//! caller performs one step at a time and reports how it ended; the sequence
//! says which step comes next, which failures are passed over and which end
//! the run.

use vstd::prelude::*;
use crate::text::{numbered, numbered_name};

verus! {

/// The brightness a reset sets, in percent.
pub const BRIGHTNESS: u8 = 50;

/// How many sample images the key test cycles through.
pub const SAMPLE_COUNT: u8 = 10;

/// Which sequence is run.
#[derive(Clone, Copy, Debug, PartialEq, Eq, Structural)]
pub enum Script {
    /// Background, brightness, one image per key, flush.
    Reset,
    /// Background, brightness, all key images cleared, flush.
    ResetBare,
    /// One sample image per key, flush.
    TestKeys,
}

/// One step of a sequence.
#[derive(Clone, Copy, Debug, PartialEq, Eq, Structural)]
pub enum Step {
    /// Load the background image and push it to the whole panel.
    Background,
    /// Set the brightness to this percentage.
    Brightness(u8),
    /// Clear the image of every key.
    ClearKeys,
    /// Load the image of this key and push it.
    KeyImage(u8),
    /// Load the sample image for this key and push it.
    SampleImage(u8),
    /// Flush the buffered writes to the device.
    Flush,
}

/// How a step ended.
#[derive(Clone, Copy, Debug, PartialEq, Eq, Structural)]
pub enum Outcome {
    /// The step was carried out.
    Done,
    /// The asset of the step could not be loaded.
    Missing,
    /// The transport reported an I/O error.
    Failed,
}

/// Why a sequence was aborted, with the step that failed.
#[derive(Clone, Copy, Debug, PartialEq, Eq, Structural)]
pub enum SetupError {
    /// An asset that the sequence cannot do without could not be loaded.
    AssetMissing(Step),
    /// The transport reported an I/O error.
    Io(Step),
}

/// Where a sequence stands.
#[derive(Clone, Copy, Debug, PartialEq, Eq, Structural)]
pub enum Progress {
    /// This step is to be performed next.
    Pending(Step),
    /// Every step was performed or passed over.
    Finished,
    /// A step failed; no further step is performed.
    Aborted(SetupError),
}

/// The step that a script performs for the key at `index`.
pub open spec fn key_step(script: Script, index: u8) -> Step {
    if script is TestKeys {
        Step::SampleImage(index)
    } else {
        Step::KeyImage(index)
    }
}

/// What comes once the keys before `index` are dealt with: the step of the
/// key at `index`, or the flush where no key is left.
pub open spec fn keys_from(script: Script, key_count: u8, index: int) -> Progress {
    if 0 <= index < key_count {
        Progress::Pending(key_step(script, index as u8))
    } else {
        Progress::Pending(Step::Flush)
    }
}

/// Where a sequence starts.
pub open spec fn first(script: Script, key_count: u8) -> Progress {
    match script {
        Script::Reset => Progress::Pending(Step::Background),
        Script::ResetBare => Progress::Pending(Step::Background),
        Script::TestKeys => keys_from(script, key_count, 0),
    }
}

/// What follows a step that was performed or passed over.
pub open spec fn successor(script: Script, key_count: u8, step: Step) -> Progress {
    match step {
        Step::Background => Progress::Pending(Step::Brightness(BRIGHTNESS)),
        Step::Brightness(_) => if script is ResetBare {
            Progress::Pending(Step::ClearKeys)
        } else {
            keys_from(script, key_count, 0)
        },
        Step::ClearKeys => Progress::Pending(Step::Flush),
        Step::KeyImage(index) => keys_from(script, key_count, index + 1),
        Step::SampleImage(index) => keys_from(script, key_count, index + 1),
        Step::Flush => Progress::Finished,
    }
}

/// Whether the sequence goes on after `step` ended with `outcome`. It does
/// after a step that was carried out, and after a key image that is missing:
/// that key is passed over. Every other failure ends the run.
pub open spec fn passes(step: Step, outcome: Outcome) -> bool {
    outcome is Done || (outcome is Missing && step is KeyImage)
}

/// The error that a failed step ends the run with.
pub open spec fn failure(step: Step, outcome: Outcome) -> SetupError {
    if outcome is Missing {
        SetupError::AssetMissing(step)
    } else {
        SetupError::Io(step)
    }
}

/// The background image of a reset.
pub open spec fn background_path() -> Seq<char> {
    "assets/background/default.jpg"@
}

/// The image of the key at `index`.
pub open spec fn key_image_path(index: u8) -> Seq<char> {
    numbered_name("assets/icons/actions/action_"@, index as nat, ".png"@)
}

/// The number of the sample image that the key test shows on the key at
/// `index`: the samples are numbered from one and repeat after the last.
pub open spec fn sample_number(index: u8) -> nat {
    (index % SAMPLE_COUNT + 1) as nat
}

/// The sample image that the key test shows on the key at `index`.
pub open spec fn sample_image_path(index: u8) -> Seq<char> {
    numbered_name("assets/icons/samples/"@, sample_number(index), ".png"@)
}

/// The file a step loads, for the steps that load one.
pub open spec fn asset_path(step: Step) -> Option<Seq<char>> {
    match step {
        Step::Background => Some(background_path()),
        Step::KeyImage(index) => Some(key_image_path(index)),
        Step::SampleImage(index) => Some(sample_image_path(index)),
        _ => None,
    }
}

/// The steps of the keys of a deck, in key order.
pub open spec fn key_steps(script: Script, key_count: u8) -> Seq<Step> {
    Seq::new(key_count as nat, |index: int| key_step(script, index as u8))
}

/// The steps of a run in which nothing ends the sequence early, in the order
/// in which they are performed.
pub open spec fn plan(script: Script, key_count: u8) -> Seq<Step> {
    match script {
        Script::Reset => seq![Step::Background, Step::Brightness(BRIGHTNESS)] + key_steps(
            script,
            key_count,
        ) + seq![Step::Flush],
        Script::ResetBare => seq![
            Step::Background,
            Step::Brightness(BRIGHTNESS),
            Step::ClearKeys,
            Step::Flush,
        ],
        Script::TestKeys => key_steps(script, key_count) + seq![Step::Flush],
    }
}

/// A sequence as a mathematical value.
pub struct SetupModel {
    /// The script that is run.
    pub script: Script,
    /// The number of keys of the deck.
    pub key_count: u8,
    /// Where the run stands.
    pub progress: Progress,
}

impl SetupModel {
    /// A sequence before its first step.
    pub open spec fn start(script: Script, key_count: u8) -> SetupModel {
        SetupModel { script, key_count, progress: first(script, key_count) }
    }

    /// The sequence after the pending step ended with `outcome`. A sequence
    /// that is finished or aborted stays as it is.
    pub open spec fn after(self, outcome: Outcome) -> SetupModel {
        match self.progress {
            Progress::Pending(step) => if passes(step, outcome) {
                SetupModel { progress: successor(self.script, self.key_count, step), ..self }
            } else {
                SetupModel { progress: Progress::Aborted(failure(step, outcome)), ..self }
            },
            _ => self,
        }
    }

    /// The sequence after a run of steps that ended with the given outcomes,
    /// the first outcome belonging to the first step.
    pub open spec fn run(self, outcomes: Seq<Outcome>) -> SetupModel
        decreases outcomes.len(),
    {
        if outcomes.len() == 0 {
            self
        } else {
            self.run(outcomes.drop_last()).after(outcomes.last())
        }
    }

    /// What the caller gets back from the sequence: nothing while a step is
    /// pending, success once it is finished, the error once it is aborted.
    pub open spec fn result(self) -> Option<Result<(), SetupError>> {
        match self.progress {
            Progress::Pending(_) => None,
            Progress::Finished => Some(Ok(())),
            Progress::Aborted(error) => Some(Err(error)),
        }
    }
}

impl Step {
    /// Returns the file this step loads, where it loads one.
    pub fn asset(&self) -> (path: Option<String>)
        ensures
            path is Some == asset_path(*self) is Some,
            path is Some ==> path->Some_0@ == asset_path(*self)->Some_0,
    {
        match *self {
            Step::Background => Some(String::from_str("assets/background/default.jpg")),
            Step::KeyImage(index) => Some(
                numbered("assets/icons/actions/action_", index as usize, ".png"),
            ),
            Step::SampleImage(index) => {
                let number: u8 = index % SAMPLE_COUNT + 1;
                Some(numbered("assets/icons/samples/", number as usize, ".png"))
            },
            _ => None,
        }
    }
}

/// One run of a setup sequence.
#[derive(Clone, Copy, Debug, PartialEq, Eq)]
pub struct Setup {
    script: Script,
    key_count: u8,
    progress: Progress,
}

impl View for Setup {
    type V = SetupModel;

    closed spec fn view(&self) -> SetupModel {
        SetupModel { script: self.script, key_count: self.key_count, progress: self.progress }
    }
}

/// The step of a script for the key at `index`.
fn step_for_key(script: Script, index: u8) -> (step: Step)
    ensures
        step == key_step(script, index),
{
    match script {
        Script::TestKeys => Step::SampleImage(index),
        _ => Step::KeyImage(index),
    }
}

/// What comes once the keys up to and including `index` are dealt with.
fn after_key(script: Script, key_count: u8, index: u8) -> (progress: Progress)
    ensures
        progress == keys_from(script, key_count, index + 1),
{
    if index < u8::MAX && index + 1 < key_count {
        Progress::Pending(step_for_key(script, index + 1))
    } else {
        Progress::Pending(Step::Flush)
    }
}

/// What comes before the first key is dealt with.
fn first_key(script: Script, key_count: u8) -> (progress: Progress)
    ensures
        progress == keys_from(script, key_count, 0),
{
    if 0 < key_count {
        Progress::Pending(step_for_key(script, 0))
    } else {
        Progress::Pending(Step::Flush)
    }
}

impl Setup {
    /// Starts the sequence `script` for a deck with `key_count` keys.
    pub fn begin(script: Script, key_count: u8) -> (setup: Setup)
        ensures
            setup@ == SetupModel::start(script, key_count),
    {
        let progress = match script {
            Script::Reset => Progress::Pending(Step::Background),
            Script::ResetBare => Progress::Pending(Step::Background),
            Script::TestKeys => first_key(script, key_count),
        };
        Setup { script, key_count, progress }
    }

    /// Returns where the run stands: the step to perform next, or how the
    /// run ended.
    pub fn progress(&self) -> (progress: Progress)
        ensures
            progress == self@.progress,
    {
        self.progress
    }

    /// Returns the script that is run.
    pub fn script(&self) -> (script: Script)
        ensures
            script == self@.script,
    {
        self.script
    }

    /// Returns the number of keys of the deck.
    pub fn key_count(&self) -> (key_count: u8)
        ensures
            key_count == self@.key_count,
    {
        self.key_count
    }

    /// Reports how the pending step ended. After a step that was carried
    /// out the next one becomes pending, and so it does after a key image
    /// whose asset is missing: the key is passed over. Any other failure
    /// aborts the run, and an aborted or finished run takes no more reports.
    pub fn advance(&mut self, outcome: Outcome)
        ensures
            final(self)@ == old(self)@.after(outcome),
    {
        match self.progress {
            Progress::Pending(step) => {
                let goes_on: bool = match outcome {
                    Outcome::Done => true,
                    Outcome::Missing => match step {
                        Step::KeyImage(_) => true,
                        _ => false,
                    },
                    Outcome::Failed => false,
                };
                if goes_on {
                    self.progress = match step {
                        Step::Background => Progress::Pending(Step::Brightness(BRIGHTNESS)),
                        Step::Brightness(_) => match self.script {
                            Script::ResetBare => Progress::Pending(Step::ClearKeys),
                            _ => first_key(self.script, self.key_count),
                        },
                        Step::ClearKeys => Progress::Pending(Step::Flush),
                        Step::KeyImage(index) => after_key(self.script, self.key_count, index),
                        Step::SampleImage(index) => after_key(self.script, self.key_count, index),
                        Step::Flush => Progress::Finished,
                    };
                } else {
                    let error = match outcome {
                        Outcome::Missing => SetupError::AssetMissing(step),
                        _ => SetupError::Io(step),
                    };
                    self.progress = Progress::Aborted(error);
                }
            },
            _ => {},
        }
    }

    /// Returns what the sequence ended with: nothing while a step is
    /// pending, `Ok` once every step was performed or passed over, the error
    /// once a step aborted the run.
    pub fn result(&self) -> (result: Option<Result<(), SetupError>>)
        ensures
            result == self@.result(),
    {
        match self.progress {
            Progress::Pending(_) => None,
            Progress::Finished => Some(Ok(())),
            Progress::Aborted(error) => Some(Err(error)),
        }
    }
}

/// A missing key image does not end a reset: the run goes on exactly as if
/// the image had been pushed, with the next key or, after the last, the
/// flush.
pub proof fn lemma_missing_key_image_is_passed_over(model: SetupModel, index: u8)
    requires
        model.progress == Progress::Pending(Step::KeyImage(index)),
    ensures
        model.after(Outcome::Missing) == model.after(Outcome::Done),
        model.after(Outcome::Missing).progress == keys_from(
            model.script,
            model.key_count,
            index + 1,
        ),
        !(model.after(Outcome::Missing).progress is Aborted),
{
}

/// An I/O error ends the run at the step that met it, whatever the step, and
/// the error is what the sequence results in.
pub proof fn lemma_io_error_aborts(model: SetupModel, step: Step)
    requires
        model.progress == Progress::Pending(step),
    ensures
        model.after(Outcome::Failed).progress == Progress::Aborted(SetupError::Io(step)),
        model.after(Outcome::Failed).result() == Some(
            Err::<(), SetupError>(SetupError::Io(step)),
        ),
{
}

/// Once a run is aborted or finished, nothing that is reported changes it: no
/// further step becomes pending.
pub proof fn lemma_ended_run_stays(model: SetupModel, outcomes: Seq<Outcome>)
    requires
        !(model.progress is Pending),
    ensures
        model.run(outcomes) == model,
    decreases outcomes.len(),
{
    if outcomes.len() > 0 {
        lemma_ended_run_stays(model, outcomes.drop_last());
    }
}

/// A run can be cut in two at any point.
pub proof fn lemma_run_split(model: SetupModel, outcomes: Seq<Outcome>, at: int)
    requires
        0 <= at <= outcomes.len(),
    ensures
        model.run(outcomes) == model.run(outcomes.take(at)).run(outcomes.skip(at)),
    decreases outcomes.len() - at,
{
    if at == outcomes.len() {
        assert(outcomes.take(at) =~= outcomes);
        assert(outcomes.skip(at) =~= Seq::<Outcome>::empty());
    } else {
        let shorter = outcomes.drop_last();
        lemma_run_split(model, shorter, at);
        assert(shorter.take(at) =~= outcomes.take(at));
        assert(outcomes.skip(at).drop_last() =~= shorter.skip(at));
        assert(outcomes.skip(at).last() == outcomes.last());
    }
}

/// What follows step `i` of the plan is step `i + 1`, or the end after the
/// last step.
proof fn lemma_successor_in_plan(script: Script, key_count: u8, i: int)
    requires
        0 <= i < plan(script, key_count).len(),
    ensures
        successor(script, key_count, plan(script, key_count)[i]) == if i + 1 < plan(
            script,
            key_count,
        ).len() {
            Progress::Pending(plan(script, key_count)[i + 1])
        } else {
            Progress::Finished
        },
{
}

/// The length of the plan: two steps, the keys and the flush for a reset,
/// four steps for a bare reset, the keys and the flush for the key test.
pub proof fn lemma_plan_len(script: Script, key_count: u8)
    ensures
        plan(script, key_count).len() == match script {
            Script::Reset => key_count + 3,
            Script::ResetBare => 4,
            Script::TestKeys => key_count + 1,
        },
{
}

/// The sequence is sequential: as long as every step is carried out or
/// passed over, the steps become pending in the order of the plan, and after
/// the last one the run is finished.
pub proof fn lemma_run_follows_plan(script: Script, key_count: u8, outcomes: Seq<Outcome>)
    requires
        outcomes.len() <= plan(script, key_count).len(),
        forall|j: int|
            0 <= j < outcomes.len() ==> passes(
                #[trigger] plan(script, key_count)[j],
                outcomes[j],
            ),
    ensures
        SetupModel::start(script, key_count).run(outcomes).progress == if outcomes.len() < plan(
            script,
            key_count,
        ).len() {
            Progress::Pending(plan(script, key_count)[outcomes.len() as int])
        } else {
            Progress::Finished
        },
        SetupModel::start(script, key_count).run(outcomes).script == script,
        SetupModel::start(script, key_count).run(outcomes).key_count == key_count,
    decreases outcomes.len(),
{
    if outcomes.len() > 0 {
        let n = outcomes.len() as int;
        lemma_run_follows_plan(script, key_count, outcomes.drop_last());
        assert(passes(plan(script, key_count)[n - 1], outcomes[n - 1]));
        lemma_successor_in_plan(script, key_count, n - 1);
    }
}

/// The sequence is short-circuiting: the first step that neither is carried
/// out nor may be passed over aborts the run with its error, and whatever is
/// reported afterwards changes nothing.
pub proof fn lemma_first_failure_ends_run(
    script: Script,
    key_count: u8,
    outcomes: Seq<Outcome>,
    i: int,
)
    requires
        0 <= i < outcomes.len(),
        i < plan(script, key_count).len(),
        forall|j: int|
            0 <= j < i ==> passes(#[trigger] plan(script, key_count)[j], outcomes[j]),
        !passes(plan(script, key_count)[i], outcomes[i]),
    ensures
        SetupModel::start(script, key_count).run(outcomes).progress == Progress::Aborted(
            failure(plan(script, key_count)[i], outcomes[i]),
        ),
{
    let start = SetupModel::start(script, key_count);
    let head = outcomes.take(i);
    lemma_run_split(start, outcomes, i + 1);
    let upto = outcomes.take(i + 1);
    assert(upto.drop_last() =~= head);
    assert(upto.last() == outcomes[i]);
    assert forall|j: int| 0 <= j < head.len() implies passes(
        #[trigger] plan(script, key_count)[j],
        head[j],
    ) by {
        assert(head[j] == outcomes[j]);
    }
    lemma_run_follows_plan(script, key_count, head);
    lemma_ended_run_stays(start.run(upto), outcomes.skip(i + 1));
}

} // verus!
