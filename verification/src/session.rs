//! The recording session manager: a state machine that says, one operation
//! at a time, what is to be done to start or stop a recording, and what to
//! report once it is done.
//!
//! The manager performs nothing itself. Whoever drives it hands it a
//! request, performs the operation that it names, tells it how the operation
//! went, and goes on like that until the manager settles.

use vstd::prelude::*;
use vstd::string::StringExecFns;
use crate::action::{Action, ActionView};

verus! {

/// What is told of a start that failed, before the reason.
pub const START_FAILED: &'static str = "Error starting recording: ";

/// What is told of a stop that failed, before the reason.
pub const STOP_FAILED: &'static str = "Error stopping recording: ";

/// Whether a recording runs.
#[derive(Debug, Clone, Copy, PartialEq, Eq, Structural)]
pub enum SessionState {
    /// No stream is active and no file is open.
    Idle,
    /// The stream plays and every recorded channel has its open file.
    Recording,
}

/// What the manager asks to have done.
#[derive(Debug, Clone, Copy, PartialEq, Eq, Structural)]
pub enum Operation {
    /// Pause the stream and let go of it. Afterwards there is no stream,
    /// however the pausing went.
    PauseStream,
    /// Finalize the file of every recorded channel that is still open.
    /// Afterwards no file is open.
    FinalizeWriters,
    /// Create the directory of the new recording and open one file for each
    /// recorded channel.
    OpenWriters,
    /// Register the handler that finalizes the open files when the process
    /// is interrupted. Registering it again changes nothing.
    RegisterInterruptHandler,
    /// Build the input stream that writes into the open files.
    BuildStream,
    /// Start the stream that was built.
    PlayStream,
}

/// The operation that a transition waits for.
#[derive(Debug, Clone, Copy, PartialEq, Eq, Structural)]
pub enum Step {
    /// A restart pauses the running stream.
    PauseForRestart,
    /// A restart closes the files of the recording that ran.
    CloseForRestart,
    /// A start opens the new files.
    Open,
    /// A start registers the interrupt handler.
    Register,
    /// A start builds the stream.
    Build,
    /// A start starts the stream.
    Play,
    /// A start whose stream did not start lets go of the stream.
    ReleaseFailed,
    /// A transition that failed closes the files that are open.
    CloseFailed,
    /// A stop pauses the running stream.
    PauseForStop,
    /// A stop closes the files.
    CloseForStop,
}

/// Where a transition stands: the operation that it waits for and, once
/// something has failed, what will be reported of it.
#[derive(Debug, PartialEq, Eq)]
pub struct Stage {
    step: Step,
    failure: Option<String>,
}

/// What the manager says next.
#[derive(Debug, PartialEq, Eq)]
pub enum Progress {
    /// Perform the operation, and hand its outcome to the stage.
    Perform(Operation, Stage),
    /// The transition is over: the state that the session is in, and the
    /// action to report, if any.
    Settled(SessionState, Option<Action>),
}

/// A [`Progress`] with its texts as characters.
pub enum ProgressView {
    Perform(Operation, (Step, Option<Seq<char>>)),
    Settled(SessionState, Option<ActionView>),
}

impl View for Stage {
    type V = (Step, Option<Seq<char>>);

    closed spec fn view(&self) -> (Step, Option<Seq<char>>) {
        (
            self.step,
            match self.failure {
                Some(text) => Some(text@),
                None => None,
            },
        )
    }
}

impl View for Progress {
    type V = ProgressView;

    open spec fn view(&self) -> ProgressView {
        match self {
            Progress::Perform(operation, stage) => ProgressView::Perform(*operation, stage@),
            Progress::Settled(state, action) => ProgressView::Settled(
                *state,
                match action {
                    Some(a) => Some(a@),
                    None => None,
                },
            ),
        }
    }
}

/// How an operation went: well, or not, with the reason.
pub open spec fn outcome_view(outcome: Result<(), String>) -> Result<(), Seq<char>> {
    match outcome {
        Ok(_) => Ok(()),
        Err(reason) => Err(reason@),
    }
}

/// The transition waits for `step`, and nothing has failed.
pub open spec fn waiting(operation: Operation, step: Step) -> ProgressView {
    ProgressView::Perform(operation, (step, None))
}

/// The transition has failed with `report` and waits for `step` to clean up.
pub open spec fn cleaning(operation: Operation, step: Step, report: Seq<char>) -> ProgressView {
    ProgressView::Perform(operation, (step, Some(report)))
}

/// The transition has failed: the session is idle, and `report` is reported.
pub open spec fn failed(report: Seq<char>) -> ProgressView {
    ProgressView::Settled(SessionState::Idle, Some(ActionView::Error(report)))
}

/// What the manager says to a request.
///
/// A start that finds a recording running first pauses its stream and closes
/// its files; a start that finds none opens the new files at once. A stop
/// that finds a recording running pauses its stream; a stop that finds none
/// is over at once, and well. A failure report is no request: nothing
/// happens and nothing is reported.
pub open spec fn begun(state: SessionState, action: ActionView) -> ProgressView {
    match (action, state) {
        (ActionView::Start, SessionState::Recording) => waiting(
            Operation::PauseStream,
            Step::PauseForRestart,
        ),
        (ActionView::Start, SessionState::Idle) => waiting(Operation::OpenWriters, Step::Open),
        (ActionView::Stop, SessionState::Recording) => waiting(
            Operation::PauseStream,
            Step::PauseForStop,
        ),
        (ActionView::Stop, SessionState::Idle) => ProgressView::Settled(
            SessionState::Idle,
            Some(ActionView::Stop),
        ),
        (ActionView::Error(_), _) => ProgressView::Settled(state, None),
    }
}

/// What the manager says once the operation that `stage` waited for has been
/// performed with `outcome`.
///
/// A start goes through pausing and closing what ran, opening the files,
/// registering the interrupt handler, building the stream and starting it,
/// and then reports `Start` with the session recording. A stop goes through
/// pausing the stream and closing the files, and then reports `Stop` with
/// the session idle. The first operation that fails ends either: a stream
/// that was built is let go of, the files that are open are closed, and the
/// failure is reported with the session idle. How registering the handler
/// went does not matter, and neither does how cleaning up went.
pub open spec fn advanced(stage: (Step, Option<Seq<char>>), outcome: Result<(), Seq<char>>)
    -> ProgressView {
    let start_failed = START_FAILED@ + outcome->Err_0;
    let stop_failed = STOP_FAILED@ + outcome->Err_0;
    match stage.0 {
        Step::PauseForRestart => if outcome is Ok {
            waiting(Operation::FinalizeWriters, Step::CloseForRestart)
        } else {
            cleaning(Operation::FinalizeWriters, Step::CloseFailed, start_failed)
        },
        Step::CloseForRestart => if outcome is Ok {
            waiting(Operation::OpenWriters, Step::Open)
        } else {
            failed(start_failed)
        },
        Step::Open => if outcome is Ok {
            waiting(Operation::RegisterInterruptHandler, Step::Register)
        } else {
            failed(start_failed)
        },
        Step::Register => waiting(Operation::BuildStream, Step::Build),
        Step::Build => if outcome is Ok {
            waiting(Operation::PlayStream, Step::Play)
        } else {
            cleaning(Operation::FinalizeWriters, Step::CloseFailed, start_failed)
        },
        Step::Play => if outcome is Ok {
            ProgressView::Settled(SessionState::Recording, Some(ActionView::Start))
        } else {
            cleaning(Operation::PauseStream, Step::ReleaseFailed, start_failed)
        },
        Step::ReleaseFailed => ProgressView::Perform(
            Operation::FinalizeWriters,
            (Step::CloseFailed, stage.1),
        ),
        Step::CloseFailed => ProgressView::Settled(
            SessionState::Idle,
            match stage.1 {
                Some(report) => Some(ActionView::Error(report)),
                None => None,
            },
        ),
        Step::PauseForStop => if outcome is Ok {
            waiting(Operation::FinalizeWriters, Step::CloseForStop)
        } else {
            cleaning(Operation::FinalizeWriters, Step::CloseFailed, stop_failed)
        },
        Step::CloseForStop => if outcome is Ok {
            ProgressView::Settled(SessionState::Idle, Some(ActionView::Stop))
        } else {
            failed(stop_failed)
        },
    }
}

/// `prefix` and behind it `reason`.
fn report(prefix: &str, reason: &String) -> (r: String)
    ensures
        r@ == prefix@ + reason@,
{
    let mut text = prefix.to_owned();
    text.append(reason.as_str());
    text
}

/// Asks for `operation`; nothing has failed.
fn wait(operation: Operation, step: Step) -> (r: Progress)
    ensures
        r@ == waiting(operation, step),
{
    Progress::Perform(operation, Stage { step, failure: None })
}

/// Asks for `operation` to clean up after the failure that `text` tells of.
fn clean(operation: Operation, step: Step, text: String) -> (r: Progress)
    ensures
        r@ == cleaning(operation, step, text@),
{
    Progress::Perform(operation, Stage { step, failure: Some(text) })
}

/// Settles idle and reports the failure that `text` tells of.
fn fail(text: String) -> (r: Progress)
    ensures
        r@ == failed(text@),
{
    Progress::Settled(SessionState::Idle, Some(Action::Error(text)))
}

impl SessionState {
    /// What is to be done about `action` in this state.
    pub fn begin(self, action: &Action) -> (r: Progress)
        ensures
            r@ == begun(self, action@),
    {
        match action {
            Action::Start => new_recording(self),
            Action::Stop => stop_recording(self),
            Action::Error(_) => Progress::Settled(self, None),
        }
    }
}

/// What is to be done to start a new recording in the state `state`. Where a
/// recording runs, it is ended first: its stream is paused and its files are
/// closed before the new files are opened.
pub fn new_recording(state: SessionState) -> (r: Progress)
    ensures
        r@ == begun(state, ActionView::Start),
{
    match state {
        SessionState::Recording => wait(Operation::PauseStream, Step::PauseForRestart),
        SessionState::Idle => wait(Operation::OpenWriters, Step::Open),
    }
}

/// What is to be done to stop recording in the state `state`. Where no
/// recording runs there is nothing to do, and that is no failure.
pub fn stop_recording(state: SessionState) -> (r: Progress)
    ensures
        r@ == begun(state, ActionView::Stop),
        state == SessionState::Idle ==> r@ == ProgressView::Settled(
            SessionState::Idle,
            Some(ActionView::Stop),
        ),
{
    match state {
        SessionState::Recording => wait(Operation::PauseStream, Step::PauseForStop),
        SessionState::Idle => Progress::Settled(SessionState::Idle, Some(Action::Stop)),
    }
}

impl Stage {
    /// The operation that the transition waits for.
    pub fn step(&self) -> (r: Step)
        ensures
            r == self@.0,
    {
        self.step
    }

    /// What is to be done next, now that the awaited operation has been
    /// performed with `outcome`.
    pub fn advance(self, outcome: Result<(), String>) -> (r: Progress)
        ensures
            r@ == advanced(self@, outcome_view(outcome)),
    {
        match self.step {
            Step::PauseForRestart => match outcome {
                Ok(_) => wait(Operation::FinalizeWriters, Step::CloseForRestart),
                Err(e) => clean(
                    Operation::FinalizeWriters,
                    Step::CloseFailed,
                    report(START_FAILED, &e),
                ),
            },
            Step::CloseForRestart => match outcome {
                Ok(_) => wait(Operation::OpenWriters, Step::Open),
                Err(e) => fail(report(START_FAILED, &e)),
            },
            Step::Open => match outcome {
                Ok(_) => wait(Operation::RegisterInterruptHandler, Step::Register),
                Err(e) => fail(report(START_FAILED, &e)),
            },
            Step::Register => wait(Operation::BuildStream, Step::Build),
            Step::Build => match outcome {
                Ok(_) => wait(Operation::PlayStream, Step::Play),
                Err(e) => clean(
                    Operation::FinalizeWriters,
                    Step::CloseFailed,
                    report(START_FAILED, &e),
                ),
            },
            Step::Play => match outcome {
                Ok(_) => Progress::Settled(SessionState::Recording, Some(Action::Start)),
                Err(e) => clean(Operation::PauseStream, Step::ReleaseFailed, report(START_FAILED, &e)),
            },
            Step::ReleaseFailed => Progress::Perform(
                Operation::FinalizeWriters,
                Stage { step: Step::CloseFailed, failure: self.failure },
            ),
            Step::CloseFailed => Progress::Settled(
                SessionState::Idle,
                match self.failure {
                    Some(text) => Some(Action::Error(text)),
                    None => None,
                },
            ),
            Step::PauseForStop => match outcome {
                Ok(_) => wait(Operation::FinalizeWriters, Step::CloseForStop),
                Err(e) => clean(
                    Operation::FinalizeWriters,
                    Step::CloseFailed,
                    report(STOP_FAILED, &e),
                ),
            },
            Step::CloseForStop => match outcome {
                Ok(_) => Progress::Settled(SessionState::Idle, Some(Action::Stop)),
                Err(e) => fail(report(STOP_FAILED, &e)),
            },
        }
    }
}

/// What there is outside the manager: whether files of a recording are open,
/// whether there is a stream, and whether it plays.
pub struct World {
    pub files_open: bool,
    pub stream_built: bool,
    pub stream_playing: bool,
}

/// The world after `operation` was performed in `world`, and went well
/// (`ok`) or not.
pub open spec fn performed(world: World, operation: Operation, ok: bool) -> World {
    match operation {
        Operation::PauseStream => World { stream_built: false, stream_playing: false, ..world },
        Operation::FinalizeWriters => World { files_open: false, ..world },
        Operation::OpenWriters => World { files_open: world.files_open || ok, ..world },
        Operation::RegisterInterruptHandler => world,
        Operation::BuildStream => World { stream_built: world.stream_built || ok, ..world },
        Operation::PlayStream => World {
            stream_playing: world.stream_playing || (ok && world.stream_built),
            ..world
        },
    }
}

/// Whether `operation` keeps recordings apart when it is performed in
/// `world`: files are opened only while none is open, a stream is built
/// only while there is none and the files are open, and the stream that is
/// started is one that was built and does not play.
pub open spec fn keeps_apart(world: World, operation: Operation) -> bool {
    match operation {
        Operation::OpenWriters => !world.files_open && !world.stream_built,
        Operation::BuildStream => world.files_open && !world.stream_built,
        Operation::PlayStream => world.files_open && world.stream_built && !world.stream_playing,
        _ => true,
    }
}

/// Whether `world` is what the session state says: nothing at all while
/// idle; open files and a playing stream while recording.
pub open spec fn agrees(world: World, state: SessionState) -> bool {
    match state {
        SessionState::Idle => !world.files_open && !world.stream_built && !world.stream_playing,
        SessionState::Recording => world.files_open && world.stream_built && world.stream_playing,
    }
}

/// How a transition went on: the operations that were performed, in their
/// order, whether each of them kept recordings apart, where the transition
/// stands and what the world is.
pub struct Course {
    pub operations: Seq<Operation>,
    pub kept_apart: bool,
    pub stands: ProgressView,
    pub world: World,
}

/// The course of a transition that stands at `progress` in `world`, when the
/// operations that the manager asks for go as `outcomes` say, one after the
/// other, until the transition is over or no outcome is left.
pub open spec fn course(progress: ProgressView, world: World, outcomes: Seq<Result<(), Seq<char>>>)
    -> Course
    decreases outcomes.len(),
{
    match progress {
        ProgressView::Perform(operation, stage) => if outcomes.len() == 0 {
            Course { operations: Seq::empty(), kept_apart: true, stands: progress, world }
        } else {
            let rest = course(
                advanced(stage, outcomes[0]),
                performed(world, operation, outcomes[0] is Ok),
                outcomes.skip(1),
            );
            Course {
                operations: seq![operation] + rest.operations,
                kept_apart: keeps_apart(world, operation) && rest.kept_apart,
                stands: rest.stands,
                world: rest.world,
            }
        },
        ProgressView::Settled(_, _) => Course {
            operations: Seq::empty(),
            kept_apart: true,
            stands: progress,
            world,
        },
    }
}

/// The operation that a step waits for.
pub open spec fn awaited(step: Step) -> Operation {
    match step {
        Step::PauseForRestart => Operation::PauseStream,
        Step::CloseForRestart => Operation::FinalizeWriters,
        Step::Open => Operation::OpenWriters,
        Step::Register => Operation::RegisterInterruptHandler,
        Step::Build => Operation::BuildStream,
        Step::Play => Operation::PlayStream,
        Step::ReleaseFailed => Operation::PauseStream,
        Step::CloseFailed => Operation::FinalizeWriters,
        Step::PauseForStop => Operation::PauseStream,
        Step::CloseForStop => Operation::FinalizeWriters,
    }
}

/// What the world is whenever a transition waits for `step`.
pub open spec fn expects(step: Step, world: World) -> bool {
    match step {
        Step::PauseForRestart => agrees(world, SessionState::Recording),
        Step::CloseForRestart => !world.stream_built && !world.stream_playing,
        Step::Open => agrees(world, SessionState::Idle),
        Step::Register => world.files_open && !world.stream_built && !world.stream_playing,
        Step::Build => world.files_open && !world.stream_built && !world.stream_playing,
        Step::Play => world.files_open && world.stream_built && !world.stream_playing,
        Step::ReleaseFailed => !world.stream_playing,
        Step::CloseFailed => !world.stream_built && !world.stream_playing,
        Step::PauseForStop => agrees(world, SessionState::Recording),
        Step::CloseForStop => !world.stream_built && !world.stream_playing,
    }
}

/// Whether a transition that stands at `progress` is in step with `world`.
pub open spec fn in_step(progress: ProgressView, world: World) -> bool {
    match progress {
        ProgressView::Perform(operation, stage) => operation == awaited(stage.0) && expects(
            stage.0,
            world,
        ),
        ProgressView::Settled(state, _) => agrees(world, state),
    }
}

/// How many operations a transition that waits for `step` asks for at most,
/// that one counted.
pub open spec fn operations_left(step: Step) -> nat {
    match step {
        Step::PauseForRestart => 8,
        Step::CloseForRestart => 7,
        Step::Open => 6,
        Step::Register => 5,
        Step::Build => 4,
        Step::Play => 3,
        Step::ReleaseFailed => 2,
        Step::CloseFailed => 1,
        Step::PauseForStop => 2,
        Step::CloseForStop => 1,
    }
}

proof fn lemma_course_in_step(
    progress: ProgressView,
    world: World,
    outcomes: Seq<Result<(), Seq<char>>>,
)
    requires
        in_step(progress, world),
    ensures
        course(progress, world, outcomes).kept_apart,
        in_step(course(progress, world, outcomes).stands, course(progress, world, outcomes).world),
        progress matches ProgressView::Perform(_, stage) && outcomes.len() >= operations_left(
            stage.0,
        ) ==> course(progress, world, outcomes).stands is Settled,
    decreases outcomes.len(),
{
    if let ProgressView::Perform(operation, stage) = progress {
        if outcomes.len() > 0 {
            lemma_course_in_step(
                advanced(stage, outcomes[0]),
                performed(world, operation, outcomes[0] is Ok),
                outcomes.skip(1),
            );
        }
    }
}

/// Recordings are kept apart. From a world that agrees with the session
/// state, and however the operations go: whenever the manager asks for files
/// to be opened none is open, whenever it asks for a stream to be built
/// there is none, and when the transition is over the world agrees with the
/// state that the manager settles in. A transition is over after eight
/// operations at most.
pub proof fn lemma_recordings_kept_apart(
    state: SessionState,
    action: ActionView,
    world: World,
    outcomes: Seq<Result<(), Seq<char>>>,
)
    requires
        agrees(world, state),
    ensures
        course(begun(state, action), world, outcomes).kept_apart,
        course(begun(state, action), world, outcomes).stands matches ProgressView::Settled(
            settled,
            _,
        ) ==> agrees(course(begun(state, action), world, outcomes).world, settled),
        outcomes.len() >= 8 ==> course(begun(state, action), world, outcomes).stands is Settled,
{
    lemma_course_in_step(begun(state, action), world, outcomes);
}

/// Stopping while idle succeeds without anything being done: the manager
/// asks for no operation and reports `Stop`.
pub proof fn lemma_stop_when_idle(world: World, outcomes: Seq<Result<(), Seq<char>>>)
    ensures
        begun(SessionState::Idle, ActionView::Stop) == ProgressView::Settled(
            SessionState::Idle,
            Some(ActionView::Stop),
        ),
        course(begun(SessionState::Idle, ActionView::Stop), world, outcomes).operations
            == Seq::<Operation>::empty(),
        course(begun(SessionState::Idle, ActionView::Stop), world, outcomes).world == world,
{
}

/// The outcomes of `count` operations that all went well.
pub open spec fn all_well(count: nat) -> Seq<Result<(), Seq<char>>> {
    Seq::new(count, |i: int| Ok(()))
}

/// Starting while a recording runs, with every operation going well: the
/// stream of the recording that runs is paused and its files are finalized
/// before the files of the new recording are opened; then the stream is
/// built and started, `Start` is reported and the session records.
pub proof fn lemma_restart_closes_before_it_opens()
    ensures
        course(
            begun(SessionState::Recording, ActionView::Start),
            World { files_open: true, stream_built: true, stream_playing: true },
            all_well(6),
        ).operations == seq![
            Operation::PauseStream,
            Operation::FinalizeWriters,
            Operation::OpenWriters,
            Operation::RegisterInterruptHandler,
            Operation::BuildStream,
            Operation::PlayStream,
        ],
        course(
            begun(SessionState::Recording, ActionView::Start),
            World { files_open: true, stream_built: true, stream_playing: true },
            all_well(6),
        ).stands == ProgressView::Settled(SessionState::Recording, Some(ActionView::Start)),
{
    let o = all_well(6);
    let o1 = o.skip(1);
    let o2 = o1.skip(1);
    let o3 = o2.skip(1);
    let o4 = o3.skip(1);
    let o5 = o4.skip(1);
    let o6 = o5.skip(1);
    let w0 = World { files_open: true, stream_built: true, stream_playing: true };
    let w1 = performed(w0, Operation::PauseStream, true);
    let w2 = performed(w1, Operation::FinalizeWriters, true);
    let w3 = performed(w2, Operation::OpenWriters, true);
    let w4 = performed(w3, Operation::RegisterInterruptHandler, true);
    let w5 = performed(w4, Operation::BuildStream, true);
    let w6 = performed(w5, Operation::PlayStream, true);
    let settled = ProgressView::Settled(SessionState::Recording, Some(ActionView::Start));
    let c6 = course(settled, w6, o6);
    let c5 = course(waiting(Operation::PlayStream, Step::Play), w5, o5);
    let c4 = course(waiting(Operation::BuildStream, Step::Build), w4, o4);
    let c3 = course(waiting(Operation::RegisterInterruptHandler, Step::Register), w3, o3);
    let c2 = course(waiting(Operation::OpenWriters, Step::Open), w2, o2);
    let c1 = course(waiting(Operation::FinalizeWriters, Step::CloseForRestart), w1, o1);
    let c0 = course(begun(SessionState::Recording, ActionView::Start), w0, o);
    assert(c6.operations =~= Seq::empty());
    assert(c5.operations =~= seq![Operation::PlayStream] + c6.operations);
    assert(c4.operations =~= seq![Operation::BuildStream] + c5.operations);
    assert(c3.operations =~= seq![Operation::RegisterInterruptHandler] + c4.operations);
    assert(c2.operations =~= seq![Operation::OpenWriters] + c3.operations);
    assert(c1.operations =~= seq![Operation::FinalizeWriters] + c2.operations);
    assert(c0.operations =~= seq![Operation::PauseStream] + c1.operations);
    assert(c0.operations =~= seq![
        Operation::PauseStream,
        Operation::FinalizeWriters,
        Operation::OpenWriters,
        Operation::RegisterInterruptHandler,
        Operation::BuildStream,
        Operation::PlayStream,
    ]);
}

} // verus!
