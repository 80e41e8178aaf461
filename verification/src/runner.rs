//! The test run: a fixed list of units is run in order, each one announced
//! before it starts and marked when it returns. The first failure ends the
//! run; no later unit is started.
//!
//! The run is a state machine. [`step`] is its transition function: it
//! decides, from the state and from what just happened, what is reported
//! and what is done next. [`test_runner`] drives it over units that tell
//! their outcome by returning it.

use vstd::prelude::*;
use vstd::string::StringExecFns;
use crate::status::{
    report_run_start, report_unit_failed, report_unit_ok, report_unit_start, run_start_text,
    spec_terminate, terminate, unit_failed_text, unit_ok_text, unit_start_text, QemuExitCode,
};

verus! {

/// A unit of a test run: it has a name and runs to completion.
pub trait Testable {
    /// The name under which the unit is reported.
    fn name(&self) -> String;

    /// Runs the unit. `Err` holds the detail of what did not hold.
    fn run(&self) -> Result<(), String>;
}

/// Where a run stands. `AllPassed` and `FailedAt` are final.
#[derive(Debug, Clone, Copy, PartialEq, Eq, Structural)]
pub enum RunState {
    NotStarted,
    Running(usize),
    AllPassed,
    FailedAt(usize),
}

/// What just happened: the run was asked to begin, or the unit that was
/// running has returned or failed.
#[derive(Debug, PartialEq, Eq)]
pub enum Event {
    Begin,
    Passed,
    Failed(String),
}

/// What is to be done after a step: run the unit at an index, or end the
/// run with a code.
#[derive(Debug, Clone, Copy, PartialEq, Eq, Structural)]
pub enum Command {
    Run(usize),
    Exit(QemuExitCode),
}

/// One step of a run: the state it leads to, the text to report, and what
/// to do next.
#[derive(Debug, PartialEq, Eq)]
pub struct Step {
    pub state: RunState,
    pub text: String,
    pub command: Command,
}

/// Entering unit `index` after `text` was due: if there is such a unit it
/// is announced and run, else every unit has passed and the run ends in
/// success.
pub open spec fn enter(names: Seq<String>, index: int, text: Seq<char>) -> (
    RunState,
    Seq<char>,
    Command,
) {
    if 0 <= index < names.len() {
        (
            RunState::Running(index as usize),
            text + unit_start_text(names[index]@),
            Command::Run(index as usize),
        )
    } else {
        (RunState::AllPassed, text, Command::Exit(QemuExitCode::Success))
    }
}

/// The transition of a run over the units called `names`: the next state,
/// the text reported and the next command, or `None` where the event
/// cannot happen in the state. No event leads out of a final state.
pub open spec fn transition(state: RunState, names: Seq<String>, event: Event) -> Option<
    (RunState, Seq<char>, Command),
> {
    match (state, event) {
        (RunState::NotStarted, Event::Begin) => Some(
            enter(names, 0, run_start_text(names.len())),
        ),
        (RunState::Running(index), Event::Passed) => if index < names.len() {
            Some(enter(names, index + 1, unit_ok_text()))
        } else {
            None
        },
        (RunState::Running(index), Event::Failed(detail)) => if index < names.len() {
            Some(
                (
                    RunState::FailedAt(index),
                    unit_failed_text(detail@),
                    Command::Exit(QemuExitCode::Failed),
                ),
            )
        } else {
            None
        },
        _ => None,
    }
}

/// Announces and starts unit `index` after `text`, or ends the run in
/// success where no such unit is left.
fn enter_unit(names: &Vec<String>, index: usize, text: String) -> (next: Step)
    ensures
        (next.state, next.text@, next.command) == enter(names@, index as int, text@),
{
    if index < names.len() {
        let mut text = text;
        let announcement = report_unit_start(names[index].as_str());
        text.append(announcement.as_str());
        Step { state: RunState::Running(index), text, command: Command::Run(index) }
    } else {
        Step { state: RunState::AllPassed, text, command: Command::Exit(terminate(true)) }
    }
}

/// One step of the run over the units called `names`.
///
/// From `NotStarted`, `Begin` reports the number of units and starts the
/// first one. While unit `i` runs, `Passed` marks it as returned and starts
/// the next one, and `Failed` reports the failure and ends the run with
/// the failure code. When the last unit has returned the run ends with the
/// success code. Any other pair of state and event gives `None`.
pub fn step(state: RunState, names: &Vec<String>, event: Event) -> (next: Option<Step>)
    ensures
        match transition(state, names@, event) {
            Some((to, text, command)) => next matches Some(s) && s.state == to && s.text@ == text
                && s.command == command,
            None => next is None,
        },
{
    match state {
        RunState::NotStarted => match event {
            Event::Begin => Some(enter_unit(names, 0, report_run_start(names.len()))),
            _ => None,
        },
        RunState::Running(index) => if index < names.len() {
            match event {
                Event::Passed => Some(enter_unit(names, index + 1, report_unit_ok())),
                Event::Failed(detail) => Some(
                    Step {
                        state: RunState::FailedAt(index),
                        text: report_unit_failed(detail.as_str()),
                        command: Command::Exit(terminate(false)),
                    },
                ),
                Event::Begin => None,
            }
        } else {
            None
        },
        _ => None,
    }
}

/// The reports of the first `count` units, each of which has returned.
pub open spec fn passed_text(names: Seq<String>, count: int) -> Seq<char>
    decreases count,
{
    if count <= 0 {
        Seq::empty()
    } else {
        passed_text(names, count - 1) + unit_start_text(names[count - 1]@) + unit_ok_text()
    }
}

/// Everything a run over the units called `names` has reported by the time
/// it is in `state`; `detail` is that of the failure, where there is one.
pub open spec fn transcript(names: Seq<String>, state: RunState, detail: Seq<char>) -> Seq<char> {
    match state {
        RunState::NotStarted => Seq::empty(),
        RunState::Running(index) => run_start_text(names.len()) + passed_text(names, index as int)
            + unit_start_text(names[index as int]@),
        RunState::AllPassed => run_start_text(names.len()) + passed_text(names, names.len() as int),
        RunState::FailedAt(index) => run_start_text(names.len()) + passed_text(names, index as int)
            + unit_start_text(names[index as int]@) + unit_failed_text(detail),
    }
}

/// The detail that an event carries: that of a failure, else nothing.
pub open spec fn detail_of(event: Event) -> Seq<char> {
    match event {
        Event::Failed(detail) => detail@,
        _ => Seq::empty(),
    }
}

/// Every step adds its text to what the run has reported so far, and no
/// more. No step leads back to `NotStarted`. A step that leads to
/// `Running` has the unit at that index run; one that leads to a final
/// state ends the run, with the success code into `AllPassed` and with the
/// failure code into `FailedAt`.
pub proof fn lemma_step_extends_transcript(state: RunState, names: Seq<String>, event: Event)
    requires
        names.len() <= usize::MAX,
        transition(state, names, event) is Some,
    ensures
        ({
            let (to, text, command) = transition(state, names, event)->0;
            &&& transcript(names, to, detail_of(event)) == transcript(names, state, Seq::empty())
                + text
            &&& match to {
                RunState::NotStarted => false,
                RunState::Running(index) => command == Command::Run(index),
                RunState::AllPassed => command == Command::Exit(QemuExitCode::Success),
                RunState::FailedAt(_) => command == Command::Exit(QemuExitCode::Failed),
            }
        }),
{
    let (to, text, command) = transition(state, names, event)->0;
    let before = transcript(names, state, Seq::empty());
    let after = transcript(names, to, detail_of(event));
    match state {
        RunState::NotStarted => {
            assert(passed_text(names, 0) =~= Seq::<char>::empty());
            assert(after =~= before + text);
        },
        RunState::Running(index) => {
            match event {
                Event::Passed => {
                    assert(passed_text(names, index + 1) == passed_text(names, index as int)
                        + unit_start_text(names[index as int]@) + unit_ok_text());
                    assert(after =~= before + text);
                },
                Event::Failed(detail) => {
                    assert(text == unit_failed_text(detail@));
                    assert(after =~= before + text);
                },
                Event::Begin => {},
            }
        },
        _ => {},
    }
}

/// How a run went.
#[derive(Debug, PartialEq, Eq)]
pub struct RunReport {
    /// The names of the units, in order.
    pub names: Vec<String>,
    /// The final state of the run.
    pub state: RunState,
    /// The detail of the failure, if the run failed.
    pub failure: Option<String>,
    /// Everything the run reported, in order.
    pub transcript: String,
    /// The code with which the run ended.
    pub exit_code: QemuExitCode,
}

/// The detail of a failure, or nothing where there was none.
pub open spec fn failure_detail(failure: Option<String>) -> Seq<char> {
    match failure {
        Some(detail) => detail@,
        None => Seq::empty(),
    }
}

/// The steps that a run of `count` units in `state` has before it at most.
spec fn steps_left(state: RunState, count: int) -> int {
    match state {
        RunState::NotStarted => count + 1,
        RunState::Running(index) => count - index,
        _ => 0,
    }
}

/// Asked for its name, `test` gave `name`.
pub open spec fn named<T: Testable + ?Sized>(test: &T, name: String) -> bool {
    call_ensures(T::name, (test,), name)
}

/// Running `test` gave `outcome`.
pub open spec fn ran<T: Testable + ?Sized>(test: &T, outcome: Result<(), String>) -> bool {
    call_ensures(T::run, (test,), outcome)
}

/// Each of the first `count` units was run and returned.
pub open spec fn passed_before<T: Testable + ?Sized>(tests: Seq<&T>, count: int) -> bool {
    forall|i: int| 0 <= i < count ==> ran(#[trigger] tests[i], Ok(()))
}

/// Runs the units in order, from the first to the last or to the first
/// that fails.
///
/// The run reports the number of units, then each unit's name before the
/// unit runs and a mark when it has returned. When a unit fails, the
/// failure is reported with its detail, no later unit is started, and the
/// run ends in `FailedAt` with the failure code. When every unit has
/// returned it ends in `AllPassed` with the success code.
///
/// The report holds the name that each unit gave and, of the run, the
/// final state: every unit before the end returned from `run`, and a
/// failure is the one that the unit at that index returned.
pub fn test_runner<T: Testable + ?Sized>(tests: &[&T]) -> (report: RunReport)
    ensures
        report.names@.len() == tests@.len(),
        forall|i: int| 0 <= i < tests@.len() ==> named(tests@[i], #[trigger] report.names@[i]),
        match report.state {
            RunState::AllPassed => report.failure is None && passed_before(
                tests@,
                tests@.len() as int,
            ),
            RunState::FailedAt(index) => {
                &&& index < tests@.len()
                &&& passed_before(tests@, index as int)
                &&& report.failure matches Some(detail) && ran(tests@[index as int], Err(detail))
            },
            _ => false,
        },
        report.transcript@ == transcript(
            report.names@,
            report.state,
            failure_detail(report.failure),
        ),
        report.exit_code == spec_terminate(report.state == RunState::AllPassed),
{
    let mut names: Vec<String> = Vec::new();
    for i in 0..tests.len()
        invariant
            names@.len() == i,
            forall|j: int| 0 <= j < i ==> named(tests@[j], #[trigger] names@[j]),
    {
        names.push(tests[i].name());
    }
    let mut text = String::new();
    let mut state = RunState::NotStarted;
    let mut event = Event::Begin;
    loop
        invariant
            names@.len() == tests@.len(),
            names@.len() <= usize::MAX,
            forall|j: int| 0 <= j < names@.len() ==> named(tests@[j], #[trigger] names@[j]),
            text@ == transcript(names@, state, Seq::empty()),
            match state {
                RunState::NotStarted => event == Event::Begin,
                RunState::Running(index) => {
                    &&& index < names@.len()
                    &&& passed_before(tests@, index as int)
                    &&& match event {
                        Event::Begin => false,
                        Event::Passed => ran(tests@[index as int], Ok(())),
                        Event::Failed(detail) => ran(tests@[index as int], Err(detail)),
                    }
                },
                _ => false,
            },
        decreases steps_left(state, names@.len() as int),
    {
        let failure = match &event {
            Event::Failed(detail) => Some(detail.clone()),
            _ => None,
        };
        proof {
            lemma_step_extends_transcript(state, names@, event);
        }
        match step(state, &names, event) {
            Some(next) => {
                text.append(next.text.as_str());
                match next.command {
                    Command::Run(index) => {
                        state = next.state;
                        let outcome = tests[index].run();
                        // There is one unit value only.
                        assert(outcome is Ok ==> outcome->Ok_0 == ());
                        event = match outcome {
                            Ok(()) => Event::Passed,
                            Err(detail) => Event::Failed(detail),
                        };
                    },
                    Command::Exit(exit_code) => {
                        return RunReport {
                            names,
                            state: next.state,
                            failure,
                            transcript: text,
                            exit_code,
                        };
                    },
                }
            },
            None => {
                return unreached();
            },
        }
    }
}

/// What the fault handler of a run does when the unit that is running
/// fails with `detail`: the text it reports, and the code with which it
/// ends the run.
pub fn test_panic_handler(detail: &str) -> (end: (String, QemuExitCode))
    ensures
        end.0@ == unit_failed_text(detail@),
        end.1 == QemuExitCode::Failed,
{
    (report_unit_failed(detail), terminate(false))
}

} // verus!
