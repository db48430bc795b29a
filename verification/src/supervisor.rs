//! The supervisor of a block transfer.
//!
//! One transfer runs on a worker of its own, which holds the serial channel
//! and the local file from the moment it is spawned. The supervisor decides
//! what the initiating side does meanwhile: for a dump it samples the size of
//! the growing file once per interval and reports it, and once the worker
//! has ended it reports the size that the file has then, so that the last
//! report is the total; for a flash it pauses, prompts the operator to arm
//! the device, and waits. The driver performs each action and hands back the
//! event that came of it.

use vstd::prelude::*;
use crate::error::{LinkError, Stage};

verus! {

/// Bit rate of the serial line.
pub const BAUD_RATE: u32 = 115_200;

/// Bytes of payload in one block of a transfer.
pub const BLOCK_SIZE: u32 = 1024;

/// Read timeout of the channel while dumping: the device streams without
/// waiting, so a silent line is soon counted as an error.
pub const DUMP_READ_TIMEOUT_MS: u64 = 10;

/// Read timeout of the channel while flashing: nothing flows until the
/// operator has armed the device by hand.
pub const FLASH_READ_TIMEOUT_MS: u64 = 60_000;

/// Time between two samples of the file's size during a dump.
pub const POLL_INTERVAL_MS: u64 = 1_000;

/// Pause after the worker of a flash is spawned, before the operator is
/// prompted.
pub const ARMING_PAUSE_MS: u64 = 500;

/// Path of the local file: a dump creates it afresh, a flash reads it.
pub const ARTIFACT_PATH: &'static str = "./flash_dump.bin";

/// Line setting and timing of an operation. The values are handed to the
/// supervisor when it is made, so that two operations need not share them.
#[derive(Clone, Copy, Debug, PartialEq, Eq, Structural)]
pub struct Settings {
    /// Bit rate of the serial line.
    pub baud_rate: u32,
    /// Read timeout of the channel while dumping, in milliseconds.
    pub dump_read_timeout_ms: u64,
    /// Read timeout of the channel while flashing, in milliseconds.
    pub flash_read_timeout_ms: u64,
    /// Time between two samples of the file's size, in milliseconds.
    pub poll_interval_ms: u64,
    /// Pause before the operator is prompted, in milliseconds.
    pub arming_pause_ms: u64,
}

/// The settings of the link as the device expects them.
pub open spec fn standard_settings() -> Settings {
    Settings {
        baud_rate: BAUD_RATE,
        dump_read_timeout_ms: DUMP_READ_TIMEOUT_MS,
        flash_read_timeout_ms: FLASH_READ_TIMEOUT_MS,
        poll_interval_ms: POLL_INTERVAL_MS,
        arming_pause_ms: ARMING_PAUSE_MS,
    }
}

impl Settings {
    /// The settings of the link as the device expects them.
    pub fn standard() -> (settings: Settings)
        ensures
            settings == standard_settings(),
    {
        Settings {
            baud_rate: BAUD_RATE,
            dump_read_timeout_ms: DUMP_READ_TIMEOUT_MS,
            flash_read_timeout_ms: FLASH_READ_TIMEOUT_MS,
            poll_interval_ms: POLL_INTERVAL_MS,
            arming_pause_ms: ARMING_PAUSE_MS,
        }
    }
}

/// Which way the blocks travel.
#[derive(Clone, Copy, Debug, PartialEq, Eq, Structural)]
pub enum Direction {
    /// From the device into a fresh local file (a dump).
    Receive,
    /// From an existing local file to the device (a flash).
    Send,
}

/// Where a supervised transfer stands.
#[derive(Clone, Copy, Debug, PartialEq, Eq, Structural)]
pub enum Phase {
    /// Nothing has been asked for yet.
    Idle,
    /// The serial channel is being opened.
    OpeningChannel,
    /// The local file is being created or opened.
    OpeningArtifact,
    /// The worker is being spawned and handed channel and file.
    Spawning,
    /// The worker runs; the supervisor is looking whether it is done.
    Polling,
    /// The worker runs; the supervisor sits out an interval.
    Waiting,
    /// The worker of a dump has ended; the final size of the file is being
    /// reported.
    Closing,
    /// The supervisor is blocked until the worker ends.
    Joining,
    /// The transfer ended well.
    Completed,
    /// The operation ended with an error.
    Failed,
}

/// What the driver reports back to the supervisor.
#[derive(Clone, Copy, Debug, PartialEq, Eq, Structural)]
pub enum Event {
    /// The operation was asked for.
    Start,
    /// The serial channel is open.
    ChannelOpened,
    /// The serial channel could not be opened.
    ChannelUnavailable,
    /// The local file is open.
    ArtifactOpened,
    /// The local file could not be created or opened.
    ArtifactUnavailable,
    /// The worker runs and now holds channel and file.
    Spawned,
    /// The worker has not ended yet, and the local file has this many bytes.
    Sampled { size: u64 },
    /// The worker has signalled that it ended; the local file, looked at
    /// after the signal, has this many bytes.
    WorkerDone { size: u64 },
    /// The pause that was asked for is over.
    Waited,
    /// The worker was joined; `ok` tells whether its transfer succeeded.
    Joined { ok: bool },
    /// The worker could not be joined: it broke off without a result.
    WorkerLost,
}

/// What the supervisor asks the driver to do next.
#[derive(Clone, Copy, Debug, PartialEq, Eq, Structural)]
pub enum Action {
    /// Open the serial channel with this line setting.
    OpenChannel { baud_rate: u32, read_timeout_ms: u64 },
    /// Create the local file at `ARTIFACT_PATH` afresh (`create`), or open
    /// the file there for reading.
    OpenArtifact { create: bool },
    /// Spawn the worker, hand it channel and file, and let it run the block
    /// transfer in this direction.
    Spawn { direction: Direction, block_size: u32, crc16: bool },
    /// Look at the completion signal and then at the size of the local file.
    /// Neither touches the channel.
    Observe,
    /// Tell the operator the size, then pause.
    Report { size: u64, wait_ms: u64 },
    /// Pause, then prompt the operator to arm the device.
    Prompt { wait_ms: u64 },
    /// Wait for the worker to end.
    Join,
    /// Announce success; the operation is over.
    Succeed,
    /// Surface the error and the stage at which it arose; the operation is
    /// over.
    Fail { error: LinkError, stage: Stage },
    /// The event does not belong to the present phase: do nothing.
    Ignore,
}

impl Action {
    /// Whether the initiating side handles the serial channel in performing
    /// the action: it does so to open it and to hand it to the worker.
    pub open spec fn touches_channel(self) -> bool {
        self is OpenChannel || self is Spawn
    }
}

/// The supervisor's state.
#[derive(Clone, Copy, Debug)]
pub struct Supervisor {
    /// Line setting and timing.
    pub settings: Settings,
    /// Which way the blocks travel.
    pub direction: Direction,
    /// Where the operation stands.
    pub phase: Phase,
    /// The error that ended the operation, once it has failed.
    pub failure: Option<LinkError>,
    /// The stage at which the operation failed, once it has.
    pub failed_at: Option<Stage>,
    /// The size last reported during a dump.
    pub last_report: Option<u64>,
}

/// The read timeout that suits a direction.
pub open spec fn read_timeout_ms(settings: Settings, direction: Direction) -> u64 {
    match direction {
        Direction::Receive => settings.dump_read_timeout_ms,
        Direction::Send => settings.flash_read_timeout_ms,
    }
}

/// The state in which an operation in the given direction begins.
pub open spec fn initial(direction: Direction, settings: Settings) -> Supervisor {
    Supervisor {
        settings,
        direction,
        phase: Phase::Idle,
        failure: None,
        failed_at: None,
        last_report: None,
    }
}

/// How an operation in state `s` has ended: `None` while it runs, success
/// once it has completed, and the recorded error once it has failed.
pub open spec fn outcome_of(s: Supervisor) -> Option<Result<(), LinkError>> {
    match s.phase {
        Phase::Completed => Some(Ok(())),
        Phase::Failed => match s.failure {
            Some(error) => Some(Err(error)),
            None => None,
        },
        _ => None,
    }
}

/// State `s` after it has failed with the given error at the given stage.
pub open spec fn failed(s: Supervisor, error: LinkError, stage: Stage) -> Supervisor {
    Supervisor { phase: Phase::Failed, failure: Some(error), failed_at: Some(stage), ..s }
}

/// The state after an event, and the action that answers it.
pub open spec fn next(s: Supervisor, event: Event) -> (Supervisor, Action) {
    match (s.phase, event) {
        (Phase::Idle, Event::Start) => (
            Supervisor { phase: Phase::OpeningChannel, ..s },
            Action::OpenChannel {
                baud_rate: s.settings.baud_rate,
                read_timeout_ms: read_timeout_ms(s.settings, s.direction),
            },
        ),
        (Phase::OpeningChannel, Event::ChannelOpened) => (
            Supervisor { phase: Phase::OpeningArtifact, ..s },
            Action::OpenArtifact { create: s.direction == Direction::Receive },
        ),
        (Phase::OpeningChannel, Event::ChannelUnavailable) => (
            failed(s, LinkError::DeviceUnavailable, Stage::Open),
            Action::Fail { error: LinkError::DeviceUnavailable, stage: Stage::Open },
        ),
        (Phase::OpeningArtifact, Event::ArtifactOpened) => (
            Supervisor { phase: Phase::Spawning, ..s },
            Action::Spawn { direction: s.direction, block_size: BLOCK_SIZE, crc16: true },
        ),
        (Phase::OpeningArtifact, Event::ArtifactUnavailable) => (
            failed(s, LinkError::ArtifactError, Stage::Open),
            Action::Fail { error: LinkError::ArtifactError, stage: Stage::Open },
        ),
        (Phase::Spawning, Event::Spawned) => match s.direction {
            Direction::Receive => (Supervisor { phase: Phase::Polling, ..s }, Action::Observe),
            Direction::Send => (
                Supervisor { phase: Phase::Waiting, ..s },
                Action::Prompt { wait_ms: s.settings.arming_pause_ms },
            ),
        },
        (Phase::Polling, Event::Sampled { size }) => (
            Supervisor { phase: Phase::Waiting, last_report: Some(size), ..s },
            Action::Report { size, wait_ms: s.settings.poll_interval_ms },
        ),
        (Phase::Polling, Event::WorkerDone { size }) => (
            Supervisor { phase: Phase::Closing, last_report: Some(size), ..s },
            Action::Report { size, wait_ms: 0 },
        ),
        (Phase::Closing, Event::Waited) => (
            Supervisor { phase: Phase::Joining, ..s },
            Action::Join,
        ),
        (Phase::Waiting, Event::Waited) => match s.direction {
            Direction::Receive => (Supervisor { phase: Phase::Polling, ..s }, Action::Observe),
            Direction::Send => (Supervisor { phase: Phase::Joining, ..s }, Action::Join),
        },
        (Phase::Joining, Event::Joined { ok }) => if ok {
            (Supervisor { phase: Phase::Completed, ..s }, Action::Succeed)
        } else {
            (
                failed(s, LinkError::TransferError, Stage::Transfer),
                Action::Fail { error: LinkError::TransferError, stage: Stage::Transfer },
            )
        },
        (Phase::Joining, Event::WorkerLost) => (
            failed(s, LinkError::TransferError, Stage::Join),
            Action::Fail { error: LinkError::TransferError, stage: Stage::Join },
        ),
        _ => (s, Action::Ignore),
    }
}

/// The actions that answer a sequence of events, one after the other,
/// starting from state `s`.
pub open spec fn run(s: Supervisor, events: Seq<Event>) -> Seq<Action>
    decreases events.len(),
{
    if events.len() == 0 {
        Seq::<Action>::empty()
    } else {
        seq![next(s, events[0]).1] + run(next(s, events[0]).0, events.skip(1))
    }
}

/// The state after a sequence of events, starting from state `s`.
pub open spec fn state_after(s: Supervisor, events: Seq<Event>) -> Supervisor
    decreases events.len(),
{
    if events.len() == 0 {
        s
    } else {
        state_after(next(s, events[0]).0, events.skip(1))
    }
}

/// The sizes that the driver sampled, in order, the one that came with the
/// worker's end included.
pub open spec fn sampled_sizes(events: Seq<Event>) -> Seq<u64>
    decreases events.len(),
{
    if events.len() == 0 {
        Seq::<u64>::empty()
    } else {
        match events[0] {
            Event::Sampled { size } => seq![size] + sampled_sizes(events.skip(1)),
            Event::WorkerDone { size } => seq![size] + sampled_sizes(events.skip(1)),
            _ => sampled_sizes(events.skip(1)),
        }
    }
}

/// The sizes that the supervisor had reported, in order.
pub open spec fn reported_sizes(actions: Seq<Action>) -> Seq<u64>
    decreases actions.len(),
{
    if actions.len() == 0 {
        Seq::<u64>::empty()
    } else {
        match actions[0] {
            Action::Report { size, wait_ms } => seq![size] + reported_sizes(actions.skip(1)),
            _ => reported_sizes(actions.skip(1)),
        }
    }
}

/// The size of the local file when the worker of a dump was found to have
/// ended, as the supervisor took it in during a run from state `s`; `None`
/// where the run does not get that far.
pub open spec fn completion_size(s: Supervisor, events: Seq<Event>) -> Option<u64>
    decreases events.len(),
{
    if events.len() == 0 {
        None
    } else {
        match (s.phase, events[0]) {
            (Phase::Polling, Event::WorkerDone { size }) => Some(size),
            _ => completion_size(next(s, events[0]).0, events.skip(1)),
        }
    }
}

/// Whether no size is below `floor` and none is below the one before it.
pub open spec fn grows_from(floor: u64, sizes: Seq<u64>) -> bool
    decreases sizes.len(),
{
    sizes.len() == 0 || (floor <= sizes[0] && grows_from(sizes[0], sizes.skip(1)))
}

impl Supervisor {
    /// What holds of every state that an operation can reach: an error is
    /// recorded exactly in the failed phase, only a dump polls, a dump whose
    /// worker was found ended has reported the final size, and a size has
    /// been reported only by a dump whose worker was spawned.
    pub open spec fn wf(self) -> bool {
        &&& self.failure.is_some() <==> self.phase == Phase::Failed
        &&& self.failed_at.is_some() <==> self.phase == Phase::Failed
        &&& self.phase == Phase::Polling ==> self.direction == Direction::Receive
        &&& self.phase == Phase::Closing ==> self.direction == Direction::Receive
            && self.last_report.is_some()
        &&& self.last_report.is_some() ==> self.direction == Direction::Receive && !(self.phase
            == Phase::Idle || self.phase == Phase::OpeningChannel || self.phase
            == Phase::OpeningArtifact || self.phase == Phase::Spawning)
    }

    /// Whether the worker runs, or may run, and holds channel and file.
    pub open spec fn worker_holds_channel(self) -> bool {
        self.phase == Phase::Polling || self.phase == Phase::Waiting || self.phase
            == Phase::Closing || self.phase == Phase::Joining
    }

    /// Whether the supervisor has not yet learnt that the worker ended.
    pub open spec fn before_completion(self) -> bool {
        self.phase == Phase::Idle || self.phase == Phase::OpeningChannel || self.phase
            == Phase::OpeningArtifact || self.phase == Phase::Spawning || self.phase
            == Phase::Polling || self.phase == Phase::Waiting
    }

    /// Whether the operation is over.
    pub open spec fn is_terminal(self) -> bool {
        self.phase == Phase::Completed || self.phase == Phase::Failed
    }

    /// A supervisor with the standard settings, for an operation that has
    /// not started.
    pub fn new(direction: Direction) -> (s: Supervisor)
        ensures
            s == initial(direction, standard_settings()),
            s.wf(),
    {
        Supervisor::with_settings(direction, Settings::standard())
    }

    /// A supervisor with settings of the caller's choice, for an operation
    /// that has not started.
    pub fn with_settings(direction: Direction, settings: Settings) -> (s: Supervisor)
        ensures
            s == initial(direction, settings),
            s.wf(),
    {
        Supervisor {
            settings,
            direction,
            phase: Phase::Idle,
            failure: None,
            failed_at: None,
            last_report: None,
        }
    }

    /// The present phase.
    pub fn phase(&self) -> (phase: Phase)
        ensures
            phase == self.phase,
    {
        self.phase
    }

    /// How the operation ended: `None` while it runs, then `Some(Ok(()))`
    /// after success or `Some(Err(..))` with the error that ended it.
    pub fn outcome(&self) -> (outcome: Option<Result<(), LinkError>>)
        ensures
            outcome == outcome_of(*self),
    {
        match self.phase {
            Phase::Completed => Some(Ok(())),
            Phase::Failed => match self.failure {
                Some(error) => Some(Err(error)),
                None => None,
            },
            _ => None,
        }
    }

    /// The stage at which the operation failed, once it has.
    pub fn failed_at(&self) -> (stage: Option<Stage>)
        ensures
            stage == self.failed_at,
    {
        self.failed_at
    }

    /// The size last reported during a dump, if any was.
    pub fn last_report(&self) -> (size: Option<u64>)
        ensures
            size == self.last_report,
    {
        self.last_report
    }

    /// Takes in an event and returns the action that answers it.
    ///
    /// State and action are those of `next`. An event that does not belong
    /// to the present phase changes nothing and is answered by `Ignore`.
    pub fn step(&mut self, event: Event) -> (action: Action)
        ensures
            (*final(self), action) == next(*old(self), event),
            old(self).wf() ==> final(self).wf(),
    {
        let direction = self.direction;
        let settings = self.settings;
        match (self.phase, event) {
            (Phase::Idle, Event::Start) => {
                self.phase = Phase::OpeningChannel;
                let timeout: u64 = match direction {
                    Direction::Receive => settings.dump_read_timeout_ms,
                    Direction::Send => settings.flash_read_timeout_ms,
                };
                Action::OpenChannel { baud_rate: settings.baud_rate, read_timeout_ms: timeout }
            },
            (Phase::OpeningChannel, Event::ChannelOpened) => {
                self.phase = Phase::OpeningArtifact;
                match direction {
                    Direction::Receive => Action::OpenArtifact { create: true },
                    Direction::Send => Action::OpenArtifact { create: false },
                }
            },
            (Phase::OpeningChannel, Event::ChannelUnavailable) => {
                self.fail(LinkError::DeviceUnavailable, Stage::Open)
            },
            (Phase::OpeningArtifact, Event::ArtifactOpened) => {
                self.phase = Phase::Spawning;
                Action::Spawn { direction, block_size: BLOCK_SIZE, crc16: true }
            },
            (Phase::OpeningArtifact, Event::ArtifactUnavailable) => {
                self.fail(LinkError::ArtifactError, Stage::Open)
            },
            (Phase::Spawning, Event::Spawned) => match direction {
                Direction::Receive => {
                    self.phase = Phase::Polling;
                    Action::Observe
                },
                Direction::Send => {
                    self.phase = Phase::Waiting;
                    Action::Prompt { wait_ms: settings.arming_pause_ms }
                },
            },
            (Phase::Polling, Event::Sampled { size }) => {
                self.phase = Phase::Waiting;
                self.last_report = Some(size);
                Action::Report { size, wait_ms: settings.poll_interval_ms }
            },
            (Phase::Polling, Event::WorkerDone { size }) => {
                self.phase = Phase::Closing;
                self.last_report = Some(size);
                Action::Report { size, wait_ms: 0 }
            },
            (Phase::Closing, Event::Waited) => {
                self.phase = Phase::Joining;
                Action::Join
            },
            (Phase::Waiting, Event::Waited) => match direction {
                Direction::Receive => {
                    self.phase = Phase::Polling;
                    Action::Observe
                },
                Direction::Send => {
                    self.phase = Phase::Joining;
                    Action::Join
                },
            },
            (Phase::Joining, Event::Joined { ok }) => {
                if ok {
                    self.phase = Phase::Completed;
                    Action::Succeed
                } else {
                    self.fail(LinkError::TransferError, Stage::Transfer)
                }
            },
            (Phase::Joining, Event::WorkerLost) => {
                self.fail(LinkError::TransferError, Stage::Join)
            },
            _ => Action::Ignore,
        }
    }

    /// Ends the operation with an error.
    fn fail(&mut self, error: LinkError, stage: Stage) -> (action: Action)
        ensures
            *final(self) == failed(*old(self), error, stage),
            action == (Action::Fail { error, stage }),
    {
        self.phase = Phase::Failed;
        self.failure = Some(error);
        self.failed_at = Some(stage);
        Action::Fail { error, stage }
    }
}

/// A well-formed state has an outcome exactly when the operation is over.
pub proof fn lemma_outcome_when_over(s: Supervisor)
    requires
        s.wf(),
    ensures
        outcome_of(s).is_some() <==> s.is_terminal(),
        s.phase == Phase::Failed ==> outcome_of(s) == Some(
            Err::<(), LinkError>(s.failure.unwrap()),
        ),
{
}

/// Every step keeps a well-formed state well-formed.
pub proof fn lemma_next_preserves_wf(s: Supervisor, event: Event)
    requires
        s.wf(),
    ensures
        next(s, event).0.wf(),
        next(s, event).0.direction == s.direction,
        next(s, event).0.settings == s.settings,
{
}

/// While the worker holds the channel, no action of the supervisor touches
/// it, whatever event arrives; and the worker keeps it until the operation is
/// over. So from the spawn on the channel has the worker as its one user.
pub proof fn lemma_channel_left_to_worker(s: Supervisor, event: Event)
    requires
        s.worker_holds_channel() || s.is_terminal(),
    ensures
        !next(s, event).1.touches_channel(),
        next(s, event).0.worker_holds_channel() || next(s, event).0.is_terminal(),
{
}

/// From the spawn on, however long the operation runs and whatever events
/// arrive, not one action of the supervisor touches the channel.
pub proof fn lemma_run_leaves_channel(s: Supervisor, events: Seq<Event>)
    requires
        s.worker_holds_channel() || s.is_terminal(),
    ensures
        run(s, events).len() == events.len(),
        forall|i: int| 0 <= i < events.len() ==> !(#[trigger] run(s, events)[i]).touches_channel(),
    decreases events.len(),
{
    if events.len() > 0 {
        let (after, action) = next(s, events[0]);
        let rest = events.skip(1);
        lemma_channel_left_to_worker(s, events[0]);
        lemma_run_leaves_channel(after, rest);
        let actions = run(s, events);
        assert forall|i: int| 0 <= i < events.len() implies !(#[trigger] actions[i]).touches_channel() by {
            if i > 0 {
                assert(actions[i] == run(after, rest)[i - 1]);
            }
        }
    }
}

/// An operation that is over stays as it ended: every further event is
/// ignored.
pub proof fn lemma_terminal_is_final(s: Supervisor, event: Event)
    requires
        s.is_terminal(),
    ensures
        next(s, event) == (s, Action::Ignore),
{
}

/// The join decides, once and for all: the operation has completed if the
/// worker's transfer succeeded, and has failed with `TransferError` if it
/// did not. Nothing is tried again.
pub proof fn lemma_join_decides(s: Supervisor, ok: bool)
    requires
        s.phase == Phase::Joining,
    ensures
        next(s, Event::Joined { ok }).0.is_terminal(),
        ok ==> outcome_of(next(s, Event::Joined { ok }).0) == Some(Ok::<(), LinkError>(())),
        !ok ==> outcome_of(next(s, Event::Joined { ok }).0) == Some(
            Err::<(), LinkError>(LinkError::TransferError),
        ),
        ok ==> next(s, Event::Joined { ok }).1 == Action::Succeed,
        !ok ==> next(s, Event::Joined { ok }).1 == (Action::Fail {
            error: LinkError::TransferError,
            stage: Stage::Transfer,
        }),
{
}

/// A worker that cannot be joined ends the operation too: it has failed
/// with `TransferError`, at the stage of the join.
pub proof fn lemma_lost_worker_is_fatal(s: Supervisor)
    requires
        s.phase == Phase::Joining,
    ensures
        next(s, Event::WorkerLost).0 == failed(s, LinkError::TransferError, Stage::Join),
        next(s, Event::WorkerLost).1 == (Action::Fail {
            error: LinkError::TransferError,
            stage: Stage::Join,
        }),
        outcome_of(next(s, Event::WorkerLost).0) == Some(
            Err::<(), LinkError>(LinkError::TransferError),
        ),
{
}

/// Once the worker of a dump is found to have ended, the size that the file
/// has then is reported at once, as the last report, and after it the
/// supervisor only joins the worker.
pub proof fn lemma_done_reports_final_size(s: Supervisor, size: u64)
    requires
        s.phase == Phase::Polling,
    ensures
        next(s, Event::WorkerDone { size }).1 == (Action::Report { size, wait_ms: 0 }),
        next(s, Event::WorkerDone { size }).0.phase == Phase::Closing,
        next(s, Event::WorkerDone { size }).0.last_report == Some(size),
        next(next(s, Event::WorkerDone { size }).0, Event::Waited).1 == Action::Join,
        next(next(s, Event::WorkerDone { size }).0, Event::Waited).0.phase == Phase::Joining,
{
}

/// One round of polling during a dump: the sample is reported, the interval
/// is sat out, and the supervisor looks again, with nothing changed but the
/// size last reported.
pub proof fn lemma_poll_round(s: Supervisor, size: u64)
    requires
        s.phase == Phase::Polling,
        s.direction == Direction::Receive,
    ensures
        run(s, seq![Event::Sampled { size }, Event::Waited]) == seq![
            Action::Report { size, wait_ms: s.settings.poll_interval_ms },
            Action::Observe,
        ],
        state_after(s, seq![Event::Sampled { size }, Event::Waited]) == (Supervisor {
            last_report: Some(size),
            ..s
        }),
{
    let events = seq![Event::Sampled { size }, Event::Waited];
    let s1 = next(s, events[0]).0;
    let s2 = next(s1, events[1]).0;
    assert(events.skip(1)[0] == events[1]);
    assert(events.skip(1).skip(1) =~= Seq::<Event>::empty());
    reveal_with_fuel(run, 3);
    reveal_with_fuel(state_after, 3);
    assert(run(s2, events.skip(1).skip(1)) =~= Seq::<Action>::empty());
    assert(run(s, events) =~= seq![
        Action::Report { size, wait_ms: s.settings.poll_interval_ms },
        Action::Observe,
    ]);
}

/// Sizes that grow from a floor grow from every lower floor too.
proof fn lemma_grows_from_lower(lower: u64, floor: u64, sizes: Seq<u64>)
    requires
        lower <= floor,
        grows_from(floor, sizes),
    ensures
        grows_from(lower, sizes),
{
}

/// Progress never runs backwards: as long as the file that a dump fills only
/// grows, so that no sample is smaller than the one before it, no reported
/// size is smaller than the report before it. This holds from every state
/// and for every sequence of events. That the file only grows is the
/// worker's doing, which appends to it and does nothing else.
pub proof fn lemma_reports_never_shrink(s: Supervisor, events: Seq<Event>, floor: u64)
    requires
        grows_from(floor, sampled_sizes(events)),
    ensures
        grows_from(floor, reported_sizes(run(s, events))),
    decreases events.len(),
{
    if events.len() > 0 {
        let (after, action) = next(s, events[0]);
        let rest = events.skip(1);
        let actions = run(s, events);
        assert(actions[0] == action);
        assert(actions.skip(1) =~= run(after, rest));
        if events[0] is Sampled || events[0] is WorkerDone {
            let size = match events[0] {
                Event::Sampled { size } => size,
                Event::WorkerDone { size } => size,
                _ => 0u64,
            };
            let samples = sampled_sizes(events);
            assert(samples[0] == size);
            assert(samples.skip(1) =~= sampled_sizes(rest));
            lemma_reports_never_shrink(after, rest, size);
            if action is Report {
                let reports = reported_sizes(actions);
                assert(reports[0] == size);
                assert(reports.skip(1) =~= reported_sizes(run(after, rest)));
            } else {
                lemma_grows_from_lower(floor, size, reported_sizes(run(after, rest)));
            }
        } else {
            lemma_reports_never_shrink(after, rest, floor);
        }
    }
}

/// Each report carries the size that was just sampled, and the supervisor
/// remembers it as the last one reported. A pause follows the report while
/// the worker runs, and none once it has ended.
pub proof fn lemma_report_is_sample(s: Supervisor, event: Event)
    requires
        next(s, event).1 is Report,
    ensures
        s.phase == Phase::Polling,
        next(s, event).0.last_report == Some(next(s, event).1->Report_size),
        event == (Event::Sampled { size: next(s, event).1->Report_size }) || event == (
        Event::WorkerDone { size: next(s, event).1->Report_size }),
        event is Sampled ==> next(s, event).1->Report_wait_ms == s.settings.poll_interval_ms,
        event is WorkerDone ==> next(s, event).1->Report_wait_ms == 0,
{
}

/// After any sequence of events during which a size was reported, the state
/// holds the last of those reports.
pub proof fn lemma_last_report_kept(s: Supervisor, events: Seq<Event>)
    requires
        reported_sizes(run(s, events)).len() > 0,
    ensures
        state_after(s, events).last_report == Some(reported_sizes(run(s, events)).last()),
    decreases events.len(),
{
    let (after, action) = next(s, events[0]);
    let rest = events.skip(1);
    let actions = run(s, events);
    assert(actions[0] == action);
    assert(actions.skip(1) =~= run(after, rest));
    let later = reported_sizes(run(after, rest));
    if later.len() > 0 {
        lemma_last_report_kept(after, rest);
    } else {
        lemma_state_without_report(after, rest);
    }
}

/// A sequence of events during which nothing is reported leaves the last
/// report as it was.
proof fn lemma_state_without_report(s: Supervisor, events: Seq<Event>)
    requires
        reported_sizes(run(s, events)).len() == 0,
    ensures
        state_after(s, events).last_report == s.last_report,
    decreases events.len(),
{
    if events.len() > 0 {
        let (after, action) = next(s, events[0]);
        let rest = events.skip(1);
        let actions = run(s, events);
        assert(actions[0] == action);
        assert(actions.skip(1) =~= run(after, rest));
        lemma_state_without_report(after, rest);
    }
}

/// Once the supervisor knows that the worker ended, nothing more is
/// reported, and the last report stays as it is.
proof fn lemma_silent_after_completion(s: Supervisor, events: Seq<Event>)
    requires
        !s.before_completion(),
    ensures
        reported_sizes(run(s, events)).len() == 0,
        state_after(s, events).last_report == s.last_report,
        s.phase == Phase::Failed ==> state_after(s, events).phase == Phase::Failed,
    decreases events.len(),
{
    if events.len() > 0 {
        let (after, action) = next(s, events[0]);
        let rest = events.skip(1);
        let actions = run(s, events);
        assert(actions[0] == action);
        assert(actions.skip(1) =~= run(after, rest));
        lemma_silent_after_completion(after, rest);
    }
}

/// The last report of a completed dump is the final size of the file. Take
/// any run of a dump that starts before the worker is known to have ended and
/// ends completed. Then the supervisor took in the size that the file had
/// when the worker was found ended; at least one size was reported; the last
/// size reported is that size; and the state holds it as the last report.
pub proof fn lemma_completed_dump_reports_total(s: Supervisor, events: Seq<Event>)
    requires
        s.direction == Direction::Receive,
        s.before_completion(),
        state_after(s, events).phase == Phase::Completed,
    ensures
        completion_size(s, events).is_some(),
        reported_sizes(run(s, events)).len() > 0,
        reported_sizes(run(s, events)).last() == completion_size(s, events).unwrap(),
        state_after(s, events).last_report == completion_size(s, events),
    decreases events.len(),
{
    if events.len() > 0 {
        let (after, action) = next(s, events[0]);
        let rest = events.skip(1);
        let actions = run(s, events);
        let later = reported_sizes(run(after, rest));
        assert(actions[0] == action);
        assert(actions.skip(1) =~= run(after, rest));
        if s.phase == Phase::Polling && events[0] is WorkerDone {
            lemma_silent_after_completion(after, rest);
            assert(reported_sizes(actions) =~= seq![events[0]->WorkerDone_size]);
        } else if after.phase == Phase::Failed {
            lemma_silent_after_completion(after, rest);
        } else {
            lemma_completed_dump_reports_total(after, rest);
            if action is Report {
                assert(reported_sizes(actions) =~= seq![action->Report_size] + later);
            } else {
                assert(reported_sizes(actions) =~= later);
            }
        }
    }
}

/// Where sizes grow, none exceeds the last.
pub proof fn lemma_grown_sizes_end_highest(floor: u64, sizes: Seq<u64>)
    requires
        grows_from(floor, sizes),
        sizes.len() > 0,
    ensures
        floor <= sizes.last(),
        forall|i: int| 0 <= i < sizes.len() ==> sizes[i] <= sizes.last(),
    decreases sizes.len(),
{
    if sizes.len() > 1 {
        let rest = sizes.skip(1);
        lemma_grown_sizes_end_highest(sizes[0], rest);
        assert(rest.last() == sizes.last());
        assert forall|i: int| 0 <= i < sizes.len() implies sizes[i] <= sizes.last() by {
            if i > 0 {
                assert(sizes[i] == rest[i - 1]);
            }
        }
    }
}

/// No report of a completed dump exceeds the final size of the file, as
/// long as the file only grew while it was sampled.
pub proof fn lemma_no_report_exceeds_total(s: Supervisor, events: Seq<Event>)
    requires
        s.direction == Direction::Receive,
        s.before_completion(),
        state_after(s, events).phase == Phase::Completed,
        grows_from(0, sampled_sizes(events)),
    ensures
        forall|i: int|
            0 <= i < reported_sizes(run(s, events)).len() ==> reported_sizes(run(s, events))[i]
                <= completion_size(s, events).unwrap(),
{
    lemma_completed_dump_reports_total(s, events);
    lemma_reports_never_shrink(s, events, 0);
    lemma_grown_sizes_end_highest(0, reported_sizes(run(s, events)));
}

} // verus!
