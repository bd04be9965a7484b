//! Running a command plan, or only showing it.
use vstd::prelude::*;

use crate::command::{CmdView, CommandPlan};

verus! {

/// Whether a plan is run or only shown.
#[derive(Debug, Clone, Copy, PartialEq, Eq, Structural)]
pub enum CommandExecutionMode {
    DryRun,
    Execute,
}

/// What became of a plan: its commands, and how many of them ran.
#[derive(Debug, Clone, PartialEq, Eq)]
pub struct CommandExecutionReport {
    pub dry_run: bool,
    pub commands: Vec<CommandPlan>,
    pub executed_count: usize,
}

/// A plan that stopped at a failing command, and that command's error.
#[derive(Debug, Clone, PartialEq, Eq)]
pub struct CommandExecutionFailure {
    pub report: CommandExecutionReport,
    pub error: String,
}

impl CommandExecutionFailure {
    /// The failure's message: the failing command's error.
    pub fn message(&self) -> (r: String)
        ensures
            r@ == self.error@,
    {
        self.error.clone()
    }
}

/// Runs one command; an `Err` carries what went wrong.
pub trait CommandExecutor: Sized {
    /// Whether an executor in this state may run `command`, answer `answer` and be left as
    /// `after`. An executor may say what its runs can be; one that does not may give any answer
    /// and be left in any state.
    open spec fn may_run(&self, command: CmdView, answer: Result<(), String>, after: Self) -> bool {
        true
    }

    fn execute(&mut self, command: &CommandPlan) -> (r: Result<(), String>)
        ensures
            old(self).may_run(command@, r, *final(self)),
    ;
}

/// The position of the first `Err` among an executor's answers, if any.
pub open spec fn first_failure(answers: Seq<Result<(), String>>) -> Option<int>
    decreases answers.len(),
{
    if answers.len() == 0 {
        None
    } else {
        match first_failure(answers.drop_last()) {
            Some(k) => Some(k),
            None => if answers.last() is Err {
                Some(answers.len() - 1)
            } else {
                None
            },
        }
    }
}

/// What a run of `commands` comes to, given the executor's answers in order: a failure at the
/// first `Err`, after the commands answered before it, carrying that answer's error; with no
/// `Err`, the plan with as many commands run as were answered.
pub open spec fn execution_outcome(commands: Vec<CommandPlan>, answers: Seq<Result<(), String>>) -> Result<
    CommandExecutionReport,
    CommandExecutionFailure,
> {
    match first_failure(answers) {
        Some(k) => Err(
            CommandExecutionFailure {
                report: CommandExecutionReport { dry_run: false, commands, executed_count: k as usize },
                error: answers[k]->Err_0,
            },
        ),
        None => Ok(
            CommandExecutionReport { dry_run: false, commands, executed_count: answers.len() as usize },
        ),
    }
}

/// The answers a run can get: one for each command run, in order, every one `Ok` but perhaps
/// the last, which ends the run early when it is an `Err`; an answer for every command when
/// none is an `Err`.
pub open spec fn run_answers(n: nat, answers: Seq<Result<(), String>>) -> bool {
    &&& answers.len() <= n
    &&& forall|i: int| 0 <= i < answers.len() - 1 ==> #[trigger] answers[i] is Ok
    &&& answers.len() < n ==> answers.len() > 0 && answers.last() is Err
}

proof fn lemma_first_failure_ok_prefix(answers: Seq<Result<(), String>>)
    requires
        forall|i: int| 0 <= i < answers.len() ==> #[trigger] answers[i] is Ok,
    ensures
        first_failure(answers) is None,
    decreases answers.len(),
{
    if answers.len() > 0 {
        assert forall|i: int| 0 <= i < answers.drop_last().len() implies #[trigger] answers.drop_last()[i] is Ok by {
            assert(answers.drop_last()[i] == answers[i]);
        }
        lemma_first_failure_ok_prefix(answers.drop_last());
    }
}

/// The report of a run, given the executor's answers in order.
pub fn execution_result(commands: Vec<CommandPlan>, answers: &Vec<Result<(), String>>) -> (r: Result<
    CommandExecutionReport,
    CommandExecutionFailure,
>)
    ensures
        r == execution_outcome(commands, answers@),
{
    let mut k: usize = 0;
    while k < answers.len()
        invariant
            0 <= k <= answers@.len(),
            first_failure(answers@.take(k as int)) is None,
        decreases answers.len() - k,
    {
        proof {
            assert(answers@.take(k + 1).drop_last() =~= answers@.take(k as int));
            assert(answers@.take(k + 1).last() == answers@[k as int]);
        }
        match &answers[k] {
            Err(e) => {
                proof {
                    lemma_first_failure_prefix(answers@, k + 1);
                }
                return Err(
                    CommandExecutionFailure {
                        report: CommandExecutionReport { dry_run: false, commands, executed_count: k },
                        error: e.clone(),
                    },
                );
            },
            Ok(()) => {},
        }
        k += 1;
    }
    proof {
        assert(answers@.take(k as int) =~= answers@);
    }
    Ok(CommandExecutionReport { dry_run: false, commands, executed_count: k })
}

proof fn lemma_first_failure_prefix(answers: Seq<Result<(), String>>, n: int)
    requires
        0 <= n <= answers.len(),
        first_failure(answers.take(n)) is Some,
    ensures
        first_failure(answers) == first_failure(answers.take(n)),
    decreases answers.len() - n,
{
    if n < answers.len() {
        assert(answers.take(n + 1).drop_last() =~= answers.take(n));
        lemma_first_failure_prefix(answers, n + 1);
    } else {
        assert(answers.take(n) =~= answers);
    }
}

/// A run of `commands` through executor states `states`: the executor ran the first
/// `answers.len()` commands, in order, once each, going from each state to the next and giving
/// each answer.
pub open spec fn executed_in_order<E: CommandExecutor>(
    commands: Seq<CommandPlan>,
    answers: Seq<Result<(), String>>,
    states: Seq<E>,
) -> bool {
    &&& states.len() == answers.len() + 1
    &&& answers.len() <= commands.len()
    &&& forall|i: int|
        0 <= i < answers.len() ==> states[i].may_run(commands[i]@, #[trigger] answers[i], states[i + 1])
}

/// Runs `commands` in order with `executor`, stopping at the first failure; a dry run runs none
/// and leaves the executor as it was. The executor is given the commands in order, once each,
/// up to the first failure, and the result is what `execution_outcome` makes of its answers.
pub fn apply_command_plan<E: CommandExecutor>(
    commands: Vec<CommandPlan>,
    mode: CommandExecutionMode,
    executor: &mut E,
) -> (r: Result<CommandExecutionReport, CommandExecutionFailure>)
    ensures
        mode == CommandExecutionMode::DryRun ==> r == Ok::<
            CommandExecutionReport,
            CommandExecutionFailure,
        >(CommandExecutionReport { dry_run: true, commands, executed_count: 0 }) && *final(executor)
            == *old(executor),
        mode == CommandExecutionMode::Execute ==> exists|
            answers: Seq<Result<(), String>>,
            states: Seq<E>,
        |
            #[trigger] executed_in_order(commands@, answers, states) && states[0] == *old(executor)
                && states.last() == *final(executor) && run_answers(commands@.len(), answers) && r
                == execution_outcome(commands, answers),
        mode == CommandExecutionMode::Execute && commands@.len() == 0 ==> r == Ok::<
            CommandExecutionReport,
            CommandExecutionFailure,
        >(CommandExecutionReport { dry_run: false, commands, executed_count: 0 }),
{
    if mode == CommandExecutionMode::DryRun {
        return Ok(CommandExecutionReport { dry_run: true, commands, executed_count: 0 });
    }
    let mut answers: Vec<Result<(), String>> = Vec::new();
    let mut failed = false;
    let ghost mut states: Seq<E> = seq![*executor];
    while answers.len() < commands.len() && !failed
        invariant
            answers@.len() <= commands@.len(),
            executed_in_order(commands@, answers@, states),
            states[0] == *old(executor),
            states.last() == *executor,
            !failed ==> forall|i: int| 0 <= i < answers@.len() ==> #[trigger] answers@[i] is Ok,
            failed ==> answers@.len() > 0 && answers@.last() is Err && forall|i: int|
                0 <= i < answers@.len() - 1 ==> #[trigger] answers@[i] is Ok,
        decreases commands.len() - answers.len(),
    {
        let ghost before = *executor;
        let answer = executor.execute(&commands[answers.len()]);
        proof {
            states = states.push(*executor);
        }
        failed = answer.is_err();
        answers.push(answer);
        proof {
            assert forall|i: int| 0 <= i < answers@.len() implies states[i].may_run(
                commands@[i]@,
                #[trigger] answers@[i],
                states[i + 1],
            ) by {
                if i == answers@.len() - 1 {
                    assert(states[i] == before);
                }
            }
        }
    }
    proof {
        if !failed {
            lemma_first_failure_ok_prefix(answers@);
        }
        assert(run_answers(commands@.len(), answers@));
    }
    execution_result(commands, &answers)
}

} // verus!
