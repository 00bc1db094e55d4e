//! The print session as a state machine. The caller performs each step that
//! the machine asks for (after its settle delay) over the control and data
//! channels, and hands back what came of it.
use vstd::prelude::*;
use crate::tape::PrinterStatus;

verus! {

/// Wait after a mode change before the printer takes the next command, and
/// between two status polls, in milliseconds.
pub const SETTLE_DELAY_MS: u64 = 500;

/// One piece of outside work of a session.
#[derive(Debug, Clone, Copy, PartialEq, Eq, Structural)]
pub enum Command {
    /// Ask for the printer's status over the control channel.
    QueryStatus,
    /// Send the start-print command.
    SendStart,
    /// Open the data connection on the printer's raster port.
    ConnectData,
    /// Tell the printer that the data stream follows.
    NotifyData,
    /// Write the whole encoded byte stream to the data connection.
    WriteData,
    /// Send the stop-print command.
    SendStop,
}

/// What the session asks of its caller next.
#[derive(Debug, Clone, Copy, PartialEq, Eq, Structural)]
pub enum Step {
    /// Wait `delay_ms`, then perform `command`.
    Run { command: Command, delay_ms: u64 },
    /// The session ended normally.
    Finished,
    /// The session was given up: the printer was not ready, or a reply came
    /// that does not fit the step asked for.
    Aborted,
}

/// What came of the last step.
#[derive(Debug, Clone, Copy, PartialEq, Eq, Structural)]
pub enum Reply {
    /// A command without a reply went through.
    Done,
    /// A status query was answered.
    Status(PrinterStatus),
}

/// Where a session stands.
#[derive(Debug, Clone, Copy, PartialEq, Eq, Structural)]
pub enum Phase {
    Idle,
    AwaitingStatus,
    Starting,
    Connecting,
    Notifying,
    Writing,
    Polling,
    Stopping,
    Stopped,
    Failed,
}

/// The step to run `command` after `delay_ms`.
pub open spec fn run_step(command: Command, delay_ms: u64) -> Step {
    Step::Run { command, delay_ms }
}

/// The first step of a session.
pub open spec fn first_step() -> Step {
    run_step(Command::QueryStatus, 0)
}

/// The next phase and step, given the phase and the reply to its step.
pub open spec fn transition(phase: Phase, reply: Reply) -> (Phase, Step) {
    match (phase, reply) {
        (Phase::Idle, _) => (Phase::AwaitingStatus, first_step()),
        (Phase::AwaitingStatus, Reply::Status(PrinterStatus::SomeTape(_))) => (
            Phase::Starting,
            run_step(Command::SendStart, 0),
        ),
        (Phase::Starting, Reply::Done) => (
            Phase::Connecting,
            run_step(Command::ConnectData, SETTLE_DELAY_MS),
        ),
        (Phase::Connecting, Reply::Done) => (
            Phase::Notifying,
            run_step(Command::NotifyData, SETTLE_DELAY_MS),
        ),
        (Phase::Notifying, Reply::Done) => (
            Phase::Writing,
            run_step(Command::WriteData, SETTLE_DELAY_MS),
        ),
        (Phase::Writing, Reply::Done) => (
            Phase::Polling,
            run_step(Command::QueryStatus, SETTLE_DELAY_MS),
        ),
        (Phase::Polling, Reply::Status(PrinterStatus::Printing)) => (
            Phase::Polling,
            run_step(Command::QueryStatus, SETTLE_DELAY_MS),
        ),
        (Phase::Polling, Reply::Status(_)) => (Phase::Stopping, run_step(Command::SendStop, 0)),
        (Phase::Stopping, Reply::Done) => (Phase::Stopped, Step::Finished),
        (Phase::Stopped, _) => (Phase::Stopped, Step::Finished),
        _ => (Phase::Failed, Step::Aborted),
    }
}

/// The steps that a session in `phase` asks for, given the replies in order.
pub open spec fn run_steps(phase: Phase, replies: Seq<Reply>) -> Seq<Step>
    decreases replies.len(),
{
    if replies.len() == 0 {
        seq![]
    } else {
        let (next, step) = transition(phase, replies[0]);
        seq![step] + run_steps(next, replies.drop_first())
    }
}

/// State of one print session.
pub struct Session {
    pub phase: Phase,
}

impl Session {
    /// A session that has not begun.
    pub fn new() -> (r: Session)
        ensures
            r.phase == Phase::Idle,
    {
        Session { phase: Phase::Idle }
    }

    /// Begins the session: its first step is a status query.
    pub fn start(&mut self) -> (r: Step)
        requires
            old(self).phase == Phase::Idle,
        ensures
            final(self).phase == Phase::AwaitingStatus,
            r == first_step(),
    {
        self.phase = Phase::AwaitingStatus;
        Step::Run { command: Command::QueryStatus, delay_ms: 0 }
    }

    /// Takes the reply to the last step and gives the next one.
    pub fn advance(&mut self, reply: Reply) -> (r: Step)
        ensures
            (final(self).phase, r) == transition(old(self).phase, reply),
    {
        let (phase, step) = match (self.phase, reply) {
            (Phase::Idle, _) => (
                Phase::AwaitingStatus,
                Step::Run { command: Command::QueryStatus, delay_ms: 0 },
            ),
            (Phase::AwaitingStatus, Reply::Status(PrinterStatus::SomeTape(_))) => (
                Phase::Starting,
                Step::Run { command: Command::SendStart, delay_ms: 0 },
            ),
            (Phase::Starting, Reply::Done) => (
                Phase::Connecting,
                Step::Run { command: Command::ConnectData, delay_ms: SETTLE_DELAY_MS },
            ),
            (Phase::Connecting, Reply::Done) => (
                Phase::Notifying,
                Step::Run { command: Command::NotifyData, delay_ms: SETTLE_DELAY_MS },
            ),
            (Phase::Notifying, Reply::Done) => (
                Phase::Writing,
                Step::Run { command: Command::WriteData, delay_ms: SETTLE_DELAY_MS },
            ),
            (Phase::Writing, Reply::Done) => (
                Phase::Polling,
                Step::Run { command: Command::QueryStatus, delay_ms: SETTLE_DELAY_MS },
            ),
            (Phase::Polling, Reply::Status(PrinterStatus::Printing)) => (
                Phase::Polling,
                Step::Run { command: Command::QueryStatus, delay_ms: SETTLE_DELAY_MS },
            ),
            (Phase::Polling, Reply::Status(_)) => (
                Phase::Stopping,
                Step::Run { command: Command::SendStop, delay_ms: 0 },
            ),
            (Phase::Stopping, Reply::Done) => (Phase::Stopped, Step::Finished),
            (Phase::Stopped, _) => (Phase::Stopped, Step::Finished),
            _ => (Phase::Failed, Step::Aborted),
        };
        self.phase = phase;
        step
    }
}

/// `n` copies of `r`.
pub open spec fn repeat_reply(r: Reply, n: nat) -> Seq<Reply> {
    Seq::new(n, |i: int| r)
}

/// `n` copies of `s`.
pub open spec fn repeat_step(s: Step, n: nat) -> Seq<Step> {
    Seq::new(n, |i: int| s)
}

proof fn lemma_polling(n: nat, done: PrinterStatus)
    requires
        done != PrinterStatus::Printing,
    ensures
        run_steps(
            Phase::Polling,
            repeat_reply(Reply::Status(PrinterStatus::Printing), n) + seq![Reply::Status(done), Reply::Done],
        ) == repeat_step(run_step(Command::QueryStatus, SETTLE_DELAY_MS), n) + seq![
            run_step(Command::SendStop, 0),
            Step::Finished,
        ],
    decreases n,
{
    let tail = seq![Reply::Status(done), Reply::Done];
    let rs = repeat_reply(Reply::Status(PrinterStatus::Printing), n) + tail;
    if n == 0 {
        assert(rs =~= tail);
        assert(rs.drop_first() =~= seq![Reply::Done]);
        assert(rs.drop_first().drop_first() =~= Seq::<Reply>::empty());
        assert(run_steps(Phase::Stopped, rs.drop_first().drop_first()) == Seq::<Step>::empty());
        assert(run_steps(Phase::Stopping, rs.drop_first()) =~= seq![Step::Finished]);
        assert(run_steps(Phase::Polling, rs) =~= seq![run_step(Command::SendStop, 0), Step::Finished]);
        assert(repeat_step(run_step(Command::QueryStatus, SETTLE_DELAY_MS), 0) =~= Seq::<Step>::empty());
    } else {
        lemma_polling((n - 1) as nat, done);
        assert(rs.drop_first() =~= repeat_reply(Reply::Status(PrinterStatus::Printing), (n - 1) as nat)
            + tail);
        assert(repeat_step(run_step(Command::QueryStatus, SETTLE_DELAY_MS), n) =~= seq![
            run_step(Command::QueryStatus, SETTLE_DELAY_MS),
        ] + repeat_step(run_step(Command::QueryStatus, SETTLE_DELAY_MS), (n - 1) as nat));
        assert(run_steps(Phase::Polling, rs) =~= repeat_step(
            run_step(Command::QueryStatus, SETTLE_DELAY_MS),
            n,
        ) + seq![run_step(Command::SendStop, 0), Step::Finished]);
    }
}

/// A printer that reports a tape, then is printing for `n` polls, then reports
/// anything but printing, takes exactly: one status query, the start command,
/// the data connection, the data notice, the data write, `n + 1` further status
/// queries and the stop command, in that order, after which the session ends.
pub proof fn lemma_session_linear(tape: crate::tape::Tape, n: nat, done: PrinterStatus)
    requires
        done != PrinterStatus::Printing,
    ensures
        run_steps(
            Phase::Idle,
            seq![
                Reply::Done,
                Reply::Status(PrinterStatus::SomeTape(tape)),
                Reply::Done,
                Reply::Done,
                Reply::Done,
                Reply::Done,
            ] + repeat_reply(Reply::Status(PrinterStatus::Printing), n) + seq![
                Reply::Status(done),
                Reply::Done,
            ],
        ) == seq![
            first_step(),
            run_step(Command::SendStart, 0),
            run_step(Command::ConnectData, SETTLE_DELAY_MS),
            run_step(Command::NotifyData, SETTLE_DELAY_MS),
            run_step(Command::WriteData, SETTLE_DELAY_MS),
        ] + repeat_step(run_step(Command::QueryStatus, SETTLE_DELAY_MS), n + 1) + seq![
            run_step(Command::SendStop, 0),
            Step::Finished,
        ],
{
    let head = seq![
        Reply::Done,
        Reply::Status(PrinterStatus::SomeTape(tape)),
        Reply::Done,
        Reply::Done,
        Reply::Done,
        Reply::Done,
    ];
    let poll = repeat_reply(Reply::Status(PrinterStatus::Printing), n) + seq![Reply::Status(done), Reply::Done];
    let rs = head + repeat_reply(Reply::Status(PrinterStatus::Printing), n) + seq![
        Reply::Status(done),
        Reply::Done,
    ];
    assert(rs =~= head + poll);
    lemma_polling(n, done);
    let q = run_step(Command::QueryStatus, SETTLE_DELAY_MS);
    let tail_steps = repeat_step(q, n) + seq![run_step(Command::SendStop, 0), Step::Finished];
    let r1 = rs.drop_first();
    let r2 = r1.drop_first();
    let r3 = r2.drop_first();
    let r4 = r3.drop_first();
    let r5 = r4.drop_first();
    assert(r5 =~= seq![Reply::Done] + poll);
    assert(r5.drop_first() =~= poll);
    assert(r4 =~= seq![Reply::Done, Reply::Done] + poll);
    assert(r3 =~= seq![Reply::Done, Reply::Done, Reply::Done] + poll);
    assert(r2 =~= seq![Reply::Done, Reply::Done, Reply::Done, Reply::Done] + poll);
    assert(r1 =~= seq![
        Reply::Status(PrinterStatus::SomeTape(tape)),
        Reply::Done,
        Reply::Done,
        Reply::Done,
        Reply::Done,
    ] + poll);
    assert(run_steps(Phase::Writing, r5) == seq![q] + tail_steps);
    assert(run_steps(Phase::Notifying, r4) == seq![run_step(Command::WriteData, SETTLE_DELAY_MS)] + (
    seq![q] + tail_steps));
    assert(run_steps(Phase::Connecting, r3) == seq![run_step(Command::NotifyData, SETTLE_DELAY_MS)] + (
    seq![run_step(Command::WriteData, SETTLE_DELAY_MS)] + (seq![q] + tail_steps)));
    assert(run_steps(Phase::Starting, r2) == seq![run_step(Command::ConnectData, SETTLE_DELAY_MS)] + (
    seq![run_step(Command::NotifyData, SETTLE_DELAY_MS)] + (seq![
        run_step(Command::WriteData, SETTLE_DELAY_MS),
    ] + (seq![q] + tail_steps))));
    assert(run_steps(Phase::AwaitingStatus, r1) == seq![run_step(Command::SendStart, 0)] + run_steps(
        Phase::Starting,
        r2,
    ));
    assert(run_steps(Phase::Idle, rs) == seq![first_step()] + run_steps(Phase::AwaitingStatus, r1));
    assert(repeat_step(q, n + 1) =~= seq![q] + repeat_step(q, n));
    assert(run_steps(Phase::Idle, rs) =~= seq![
        first_step(),
        run_step(Command::SendStart, 0),
        run_step(Command::ConnectData, SETTLE_DELAY_MS),
        run_step(Command::NotifyData, SETTLE_DELAY_MS),
        run_step(Command::WriteData, SETTLE_DELAY_MS),
        q,
    ] + tail_steps);
    assert(seq![
        first_step(),
        run_step(Command::SendStart, 0),
        run_step(Command::ConnectData, SETTLE_DELAY_MS),
        run_step(Command::NotifyData, SETTLE_DELAY_MS),
        run_step(Command::WriteData, SETTLE_DELAY_MS),
        q,
    ] + tail_steps =~= seq![
        first_step(),
        run_step(Command::SendStart, 0),
        run_step(Command::ConnectData, SETTLE_DELAY_MS),
        run_step(Command::NotifyData, SETTLE_DELAY_MS),
        run_step(Command::WriteData, SETTLE_DELAY_MS),
    ] + repeat_step(q, n + 1) + seq![run_step(Command::SendStop, 0), Step::Finished]);
}

} // verus!
