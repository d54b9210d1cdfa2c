//! The commands of the program, as far as they decide and compute: which
//! command is meant, which board is to be added, which boards are polled, and
//! how the task of a board answers the clock and the request to stop.

use vstd::prelude::*;
use vstd::string::*;
use crate::config::{Config, UserBoardsView};
use crate::error::Error;
use crate::text::{str_eq, trim, trimmed};

verus! {

/// A command of the program.
#[derive(Clone, Copy, Debug, PartialEq, Eq, Structural)]
pub enum Command {
    /// Follow one more board.
    Add,
    /// Poll the boards until told to stop.
    Start,
    /// Set the configuration up.
    Init,
}

/// What loading the configuration came to.
#[derive(Clone, Copy, Debug, PartialEq, Eq, Structural)]
pub enum Loaded {
    /// The configuration was read.
    Ready,
    /// There is no configuration that could be read.
    Absent,
    /// There is one, and reading it failed in this way.
    Broken(Error),
}

/// The command that the arguments of the program ask for. With a
/// configuration the commands are `add` and `start`; without one the only
/// command is `init`.
pub open spec fn spec_command(args: Seq<Seq<char>>, loaded: Loaded) -> Result<Command, Error> {
    if args.len() == 0 {
        Err(Error::MissingArgumentsError)
    } else {
        match loaded {
            Loaded::Ready => if args[0] == "add"@ {
                Ok(Command::Add)
            } else if args[0] == "start"@ {
                Ok(Command::Start)
            } else {
                Err(Error::InvalidArgument)
            },
            Loaded::Absent => if args[0] == "init"@ {
                Ok(Command::Init)
            } else {
                Err(Error::UninitError)
            },
            Loaded::Broken(e) => Err(e),
        }
    }
}

/// Finds the command that the arguments of the program, without its name,
/// ask for.
pub fn command(args: &Vec<String>, loaded: Loaded) -> (chosen: Result<Command, Error>)
    ensures
        chosen == spec_command(args.deep_view(), loaded),
{
    if args.len() == 0 {
        return Err(Error::MissingArgumentsError);
    }
    let name = args[0].as_str();
    match loaded {
        Loaded::Ready => if str_eq(name, "add") {
            Ok(Command::Add)
        } else if str_eq(name, "start") {
            Ok(Command::Start)
        } else {
            Err(Error::InvalidArgument)
        },
        Loaded::Absent => if str_eq(name, "init") {
            Ok(Command::Init)
        } else {
            Err(Error::UninitError)
        },
        Loaded::Broken(e) => Err(e),
    }
}

/// A board that is to be added.
#[derive(Debug, PartialEq, Eq)]
pub struct NewBoard {
    pub user: String,
    pub board: String,
    pub url: String,
}

/// A [`NewBoard`] with its strings as sequences of characters.
pub struct NewBoardView {
    pub user: Seq<char>,
    pub board: Seq<char>,
    pub url: Seq<char>,
}

impl View for NewBoard {
    type V = NewBoardView;

    open spec fn view(&self) -> NewBoardView {
        NewBoardView { user: self.user@, board: self.board@, url: self.url@ }
    }
}

/// The board that the arguments of `add` name. They are the name of the
/// board and the address of its feed, or the last path segment of the
/// address of the board; in front of them `--user` and an owner may stand.
/// Without `--user` the owner is `default_user`, and it is an error if there
/// is none. What follows the address is not looked at.
pub open spec fn spec_add(default_user: Option<Seq<char>>, args: Seq<Seq<char>>) -> Result<
    NewBoardView,
    Error,
> {
    if args.len() == 0 {
        Err(Error::MissingArgumentsError)
    } else if args[0] == "--user"@ {
        if args.len() >= 4 {
            Ok(NewBoardView { user: args[1], board: args[2], url: args[3] })
        } else {
            Err(Error::MissingArgumentsError)
        }
    } else {
        match default_user {
            None => Err(Error::MissingUserError),
            Some(user) => if args.len() >= 2 {
                Ok(NewBoardView { user, board: args[0], url: args[1] })
            } else {
                Err(Error::MissingArgumentsError)
            },
        }
    }
}

/// Reads the arguments of `add`: the board that is to be added, with the
/// owner that `cfg` names where the arguments name none.
pub fn add(cfg: &Config, args: &Vec<String>) -> (parsed: Result<NewBoard, Error>)
    ensures
        match parsed {
            Ok(new) => spec_add(cfg@.default_user, args.deep_view()) == Ok::<NewBoardView, Error>(
                new@,
            ),
            Err(e) => spec_add(cfg@.default_user, args.deep_view()) == Err::<NewBoardView, Error>(
                e,
            ),
        },
{
    let ghost given = args.deep_view();
    if args.len() == 0 {
        return Err(Error::MissingArgumentsError);
    }
    if str_eq(args[0].as_str(), "--user") {
        if args.len() < 4 {
            return Err(Error::MissingArgumentsError);
        }
        Ok(NewBoard { user: args[1].clone(), board: args[2].clone(), url: args[3].clone() })
    } else {
        match cfg.default_user() {
            None => Err(Error::MissingUserError),
            Some(user) => {
                if args.len() < 2 {
                    return Err(Error::MissingArgumentsError);
                }
                Ok(
                    NewBoard {
                        user: String::from_str(user),
                        board: args[0].clone(),
                        url: args[1].clone(),
                    },
                )
            },
        }
    }
}

/// The task of a board: it waits for the clock, runs one cycle at a time,
/// and ends when it is told to stop, after the cycle that it is in.
#[derive(Clone, Copy, Debug, PartialEq, Eq, Structural)]
pub enum Task {
    /// Waiting for the clock.
    Idle,
    /// In a cycle. `stopping` tells whether the task was told to stop since
    /// the cycle began.
    Running { stopping: bool },
    /// At its end.
    Cancelled,
}

/// What the task of a board is told.
#[derive(Clone, Copy, Debug, PartialEq, Eq, Structural)]
pub enum Signal {
    /// The clock struck.
    Tick,
    /// The boards are to be left alone from now on.
    Cancel,
    /// The cycle that the task asked for has come to its end, well or not.
    Done,
}

/// What the task of a board asks for.
#[derive(Clone, Copy, Debug, PartialEq, Eq, Structural)]
pub enum Order {
    /// Run one cycle and tell when it is over.
    Run,
    /// Leave: the task is at its end.
    Exit,
    /// Nothing.
    Stay,
}

/// The state that follows `task` on `signal`, and what is asked for.
///
/// * Waiting: the clock begins a cycle, the request to stop ends the task.
/// * In a cycle: the clock is not heard, the request to stop is kept in
///   mind, and the end of the cycle leads back to waiting, or to the end of
///   the task if it was told to stop.
/// * At its end the task hears nothing.
pub open spec fn spec_signal(task: Task, signal: Signal) -> (Task, Order) {
    match (task, signal) {
        (Task::Idle, Signal::Tick) => (Task::Running { stopping: false }, Order::Run),
        (Task::Idle, Signal::Cancel) => (Task::Cancelled, Order::Exit),
        (Task::Running { stopping }, Signal::Cancel) => (
            Task::Running { stopping: true },
            Order::Stay,
        ),
        (Task::Running { stopping }, Signal::Done) => if stopping {
            (Task::Cancelled, Order::Exit)
        } else {
            (Task::Idle, Order::Stay)
        },
        _ => (task, Order::Stay),
    }
}

/// Where `task` stands after `signals`, taken in order, and what the last of
/// them made it ask for.
pub open spec fn spec_signals(task: Task, signals: Seq<Signal>) -> (Task, Order)
    decreases signals.len(),
{
    if signals.len() == 0 {
        (task, Order::Stay)
    } else {
        spec_signal(spec_signals(task, signals.drop_last()).0, signals.last())
    }
}

/// The signal that what was heard on the line of the clock stands for: `true`
/// is a stroke of the clock; `false`, and a line that has gone silent, is the
/// request to stop.
pub open spec fn spec_heard(heard: Option<bool>) -> Signal {
    if heard == Some(true) {
        Signal::Tick
    } else {
        Signal::Cancel
    }
}

impl Signal {
    /// The signal that what was heard on the line of the clock stands for.
    pub fn heard(heard: Option<bool>) -> (signal: Signal)
        ensures
            signal == spec_heard(heard),
    {
        match heard {
            Some(true) => Signal::Tick,
            _ => Signal::Cancel,
        }
    }
}

impl Task {
    /// Takes a signal in and says what is to be done.
    pub fn on(self, signal: Signal) -> (next: (Task, Order))
        ensures
            next == spec_signal(self, signal),
    {
        match self {
            Task::Idle => match signal {
                Signal::Tick => (Task::Running { stopping: false }, Order::Run),
                Signal::Cancel => (Task::Cancelled, Order::Exit),
                Signal::Done => (self, Order::Stay),
            },
            Task::Running { stopping } => match signal {
                Signal::Tick => (self, Order::Stay),
                Signal::Cancel => (Task::Running { stopping: true }, Order::Stay),
                Signal::Done => if stopping {
                    (Task::Cancelled, Order::Exit)
                } else {
                    (Task::Idle, Order::Stay)
                },
            },
            Task::Cancelled => (self, Order::Stay),
        }
    }
}

/// Whether every task is at its end, so that polling may be left.
pub fn all_cancelled(tasks: &Vec<Task>) -> (all: bool)
    ensures
        all == (forall|i: int| 0 <= i < tasks.len() ==> tasks[i] == Task::Cancelled),
{
    let mut i: usize = 0;
    while i < tasks.len()
        invariant
            0 <= i <= tasks.len(),
            forall|j: int| 0 <= j < i ==> tasks[j] == Task::Cancelled,
        decreases tasks.len() - i,
    {
        match tasks[i] {
            Task::Cancelled => {},
            _ => {
                return false;
            },
        }
        i = i + 1;
    }
    true
}

/// A board that is polled, with the task that polls it.
#[derive(Debug, PartialEq, Eq)]
pub struct Job {
    pub user: String,
    pub board: String,
    pub task: Task,
}

/// A [`Job`] with its strings as sequences of characters.
pub struct JobView {
    pub user: Seq<char>,
    pub board: Seq<char>,
    pub task: Task,
}

impl View for Job {
    type V = JobView;

    open spec fn view(&self) -> JobView {
        JobView { user: self.user@, board: self.board@, task: self.task }
    }
}

impl DeepView for Job {
    type V = JobView;

    open spec fn deep_view(&self) -> JobView {
        self@
    }
}

/// The jobs for the boards of one owner, in the order of the boards.
pub open spec fn jobs_of(entry: UserBoardsView) -> Seq<JobView> {
    Seq::new(
        entry.boards.len(),
        |i: int| JobView { user: entry.user, board: entry.boards[i], task: Task::Idle },
    )
}

/// One job for each board, owner by owner, each with a task that waits.
pub open spec fn spec_jobs(boards: Seq<UserBoardsView>) -> Seq<JobView>
    decreases boards.len(),
{
    if boards.len() == 0 {
        Seq::empty()
    } else {
        spec_jobs(boards.drop_last()) + jobs_of(boards.last())
    }
}

/// Sets polling up: one job for each board of the configuration, each with a
/// task that waits for the clock.
pub fn start(cfg: &Config) -> (jobs: Vec<Job>)
    ensures
        jobs.deep_view() == spec_jobs(cfg@.boards),
{
    let entries = cfg.boards();
    let ghost all = entries.deep_view();
    let mut jobs: Vec<Job> = Vec::new();
    let mut i: usize = 0;
    while i < entries.len()
        invariant
            0 <= i <= entries.len(),
            all == entries.deep_view(),
            jobs.deep_view() == spec_jobs(all.take(i as int)),
        decreases entries.len() - i,
    {
        let entry = &entries[i];
        let ghost done = jobs.deep_view();
        assert(all.take(i + 1).drop_last() =~= all.take(i as int));
        let mut j: usize = 0;
        while j < entry.boards.len()
            invariant
                0 <= j <= entry.boards.len(),
                jobs.deep_view() == done + jobs_of(entry@).take(j as int),
            decreases entry.boards.len() - j,
        {
            let ghost before = jobs.deep_view();
            jobs.push(
                Job { user: entry.user.clone(), board: entry.boards[j].clone(), task: Task::Idle },
            );
            assert(jobs.deep_view() =~= before.push(jobs_of(entry@)[j as int]));
            j = j + 1;
        }
        i = i + 1;
    }
    assert(all.take(i as int) =~= all);
    jobs
}

/// Whether a line that was typed while the boards are polled asks to stop.
pub fn is_stop(line: &str) -> (stop: bool)
    ensures
        stop == (trimmed(line@) == "stop"@),
{
    str_eq(trim(line), "stop")
}

/// A task asks for a cycle only while it waits, and is in that cycle from
/// then on: it never runs two cycles at once.
pub proof fn lemma_one_cycle_at_a_time(task: Task, signal: Signal)
    ensures
        spec_signal(task, signal).1 == Order::Run ==> task == Task::Idle && spec_signal(
            task,
            signal,
        ).0 is Running,
        task is Running && signal == Signal::Tick ==> spec_signal(task, signal) == (
            task,
            Order::Stay,
        ),
{
}

/// A task that is told to stop in the middle of a cycle stays in the cycle,
/// and ends when the cycle is over, whatever the clock did meanwhile.
pub proof fn lemma_cancel_waits_for_cycle(task: Task, ticks: Seq<Signal>)
    requires
        task is Running,
        forall|i: int| 0 <= i < ticks.len() ==> ticks[i] == Signal::Tick,
    ensures
        spec_signals(spec_signal(task, Signal::Cancel).0, ticks).0 == (Task::Running {
            stopping: true,
        }),
        spec_signal(spec_signals(spec_signal(task, Signal::Cancel).0, ticks).0, Signal::Done) == (
            Task::Cancelled,
            Order::Exit,
        ),
    decreases ticks.len(),
{
    if ticks.len() > 0 {
        lemma_cancel_waits_for_cycle(task, ticks.drop_last());
    }
}

/// Once a task was told to stop, nothing makes it begin another cycle: it
/// is at its end, or in the cycle that it was in and about to end with it.
pub proof fn lemma_no_cycle_after_cancel(task: Task, signals: Seq<Signal>)
    ensures
        spec_signals(spec_signal(task, Signal::Cancel).0, signals).1 != Order::Run,
        spec_signals(spec_signal(task, Signal::Cancel).0, signals).0 == Task::Cancelled
            || spec_signals(spec_signal(task, Signal::Cancel).0, signals).0 == (Task::Running {
            stopping: true,
        }),
    decreases signals.len(),
{
    if signals.len() > 0 {
        lemma_no_cycle_after_cancel(task, signals.drop_last());
    }
}

/// A task that was told to stop is at its end as soon as the cycle that it
/// was in is over, and stays there: polling can be left when each task has
/// been told to stop and no cycle is under way any more.
pub proof fn lemma_cancel_then_done_ends_task(task: Task, signals: Seq<Signal>)
    requires
        exists|i: int| 0 <= i < signals.len() && signals[i] == Signal::Done,
    ensures
        spec_signals(spec_signal(task, Signal::Cancel).0, signals).0 == Task::Cancelled,
    decreases signals.len(),
{
    let front = signals.drop_last();
    lemma_no_cycle_after_cancel(task, front);
    if signals.last() != Signal::Done {
        let i = choose|i: int| 0 <= i < signals.len() && signals[i] == Signal::Done;
        assert(front[i] == Signal::Done);
        lemma_cancel_then_done_ends_task(task, front);
    }
}

/// A task at its end stays there and asks for nothing.
pub proof fn lemma_cancelled_is_final(signals: Seq<Signal>)
    ensures
        spec_signals(Task::Cancelled, signals) == (Task::Cancelled, Order::Stay),
    decreases signals.len(),
{
    if signals.len() > 0 {
        lemma_cancelled_is_final(signals.drop_last());
    }
}

} // verus!
