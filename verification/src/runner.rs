//! The bookkeeping of a run of shell commands: which command is started
//! next and how, what each one gave, and whether all of them succeeded. The
//! caller starts the processes and hands back what became of each.

use vstd::prelude::*;
use crate::text::{pieces, split_at_spaces, texts};

verus! {

/// How a command line is started: the program, and the arguments handed to
/// it.
#[derive(Debug, Clone, PartialEq, Eq)]
pub struct Invocation {
    pub program: String,
    pub args: Vec<String>,
}

/// What an `Invocation` says.
pub struct InvocationView {
    pub program: Seq<char>,
    pub args: Seq<Seq<char>>,
}

impl View for Invocation {
    type V = InvocationView;

    open spec fn view(&self) -> InvocationView {
        InvocationView { program: self.program@, args: texts(self.args@) }
    }
}

/// The invocation that a command line stands for. The line is cut at its
/// spaces and nowhere else: the first piece is the program, the others are
/// its arguments. Quotes mean nothing, so an argument that was meant to hold
/// a space arrives as several.
pub open spec fn invocation_of(line: Seq<char>) -> InvocationView {
    InvocationView { program: pieces(line).first(), args: pieces(line).skip(1) }
}

/// What became of one command.
#[derive(Debug, Clone, PartialEq, Eq)]
pub enum Completion {
    /// The process ran and ended with this exit code.
    Exited(i32),
    /// The program could not be started; the text says why.
    SpawnFailure(String),
}

/// What a `Completion` says.
pub enum CompletionView {
    Exited(i32),
    SpawnFailure(Seq<char>),
}

impl View for Completion {
    type V = CompletionView;

    open spec fn view(&self) -> CompletionView {
        match self {
            Completion::Exited(code) => CompletionView::Exited(*code),
            Completion::SpawnFailure(reason) => CompletionView::SpawnFailure(reason@),
        }
    }
}

impl Completion {
    /// A copy of the result.
    pub fn copy(&self) -> (same: Completion)
        ensures
            same@ == self@,
    {
        match self {
            Completion::Exited(code) => Completion::Exited(*code),
            Completion::SpawnFailure(reason) => Completion::SpawnFailure(reason.clone()),
        }
    }
}

/// A command succeeded where its process ran and ended with exit code 0.
pub open spec fn is_success(detail: CompletionView) -> bool {
    detail == CompletionView::Exited(0)
}

/// One command of a run and what became of it.
#[derive(Debug, Clone, PartialEq, Eq)]
pub struct CommandOutcome {
    pub command_text: String,
    pub succeeded: bool,
    pub detail: Completion,
}

/// What a `CommandOutcome` says.
pub struct OutcomeView {
    pub command_text: Seq<char>,
    pub succeeded: bool,
    pub detail: CompletionView,
}

impl View for CommandOutcome {
    type V = OutcomeView;

    open spec fn view(&self) -> OutcomeView {
        OutcomeView {
            command_text: self.command_text@,
            succeeded: self.succeeded,
            detail: self.detail@,
        }
    }
}

/// Whether every command of a run succeeded.
#[derive(Debug, Clone, Copy, PartialEq, Eq, Structural)]
pub enum OverallStatus {
    AllSucceeded,
    SomeFailed,
}

/// What a run gave: one outcome for each command that was attempted, in the
/// order of the commands, and the status over all of them.
#[derive(Debug, Clone, PartialEq, Eq)]
pub struct RunReport {
    pub status: OverallStatus,
    pub outcomes: Vec<CommandOutcome>,
}

/// The outcome of the command `command` that ended as `detail` says.
pub open spec fn outcome_of(command: Seq<char>, detail: CompletionView) -> OutcomeView {
    OutcomeView { command_text: command, succeeded: is_success(detail), detail }
}

/// The outcomes of the commands for which a result is there: the first
/// result is that of the first command, and so on.
pub open spec fn outcomes_of(commands: Seq<Seq<char>>, results: Seq<CompletionView>) -> Seq<
    OutcomeView,
> {
    Seq::new(results.len(), |i: int| outcome_of(commands[i], results[i]))
}

/// The status over a list of outcomes: all succeeded, or some failed.
pub open spec fn status_of(outcomes: Seq<OutcomeView>) -> OverallStatus {
    if forall|i: int| 0 <= i < outcomes.len() ==> (#[trigger] outcomes[i]).succeeded {
        OverallStatus::AllSucceeded
    } else {
        OverallStatus::SomeFailed
    }
}

/// The views of a list of outcomes, in order.
pub open spec fn outcome_views(outcomes: Seq<CommandOutcome>) -> Seq<OutcomeView> {
    outcomes.map_values(|o: CommandOutcome| o@)
}

/// The views of a list of results, in order.
pub open spec fn completion_views(results: Seq<Completion>) -> Seq<CompletionView> {
    results.map_values(|c: Completion| c@)
}

/// A failed command stops nothing and hides nothing: every command that has
/// a result has its outcome, at its own place and under its own text, and
/// the status is `SomeFailed` exactly when one of the results is not an exit
/// with code 0.
pub proof fn lemma_every_command_reported(commands: Seq<Seq<char>>, results: Seq<CompletionView>)
    requires
        results.len() <= commands.len(),
    ensures
        outcomes_of(commands, results).len() == results.len(),
        forall|i: int|
            0 <= i < results.len() ==> (#[trigger] outcomes_of(commands, results)[i])
                == outcome_of(commands[i], results[i]),
        status_of(outcomes_of(commands, results)) == OverallStatus::SomeFailed <==> exists|i: int|
            0 <= i < results.len() && !is_success(#[trigger] results[i]),
        status_of(outcomes_of(commands, results)) == OverallStatus::AllSucceeded <==> forall|
            i: int,
        |
            0 <= i < results.len() ==> is_success(#[trigger] results[i]),
{
    let outcomes = outcomes_of(commands, results);
    if forall|i: int| 0 <= i < results.len() ==> is_success(#[trigger] results[i]) {
        assert forall|i: int| 0 <= i < outcomes.len() implies (#[trigger] outcomes[i]).succeeded by {
            assert(is_success(results[i]));
        }
    } else {
        let bad = choose|i: int| 0 <= i < results.len() && !is_success(#[trigger] results[i]);
        assert(!outcomes[bad].succeeded);
    }
}

/// Cuts a command line into the program and its arguments.
pub fn plan_command(line: &str) -> (invocation: Invocation)
    ensures
        invocation@ == invocation_of(line@),
{
    let mut parts = split_at_spaces(line);
    proof {
        crate::text::lemma_pieces_rebuild(line@);
        assert(texts(parts@.remove(0)) =~= pieces(line@).skip(1));
    }
    let program = parts.remove(0);
    Invocation { program, args: parts }
}

/// A run of a list of commands, from the first to the last. Each command is
/// attempted, whatever became of those before it.
#[derive(Debug, PartialEq, Eq)]
pub struct CommandRun {
    commands: Vec<String>,
    outcomes: Vec<CommandOutcome>,
}

/// The results that a list of outcomes holds, in order.
pub open spec fn details(outcomes: Seq<OutcomeView>) -> Seq<CompletionView> {
    outcomes.map_values(|o: OutcomeView| o.detail)
}

impl CommandOutcome {
    /// The outcome of the command `command` that ended as `detail` says.
    pub fn new(command: &String, detail: Completion) -> (outcome: CommandOutcome)
        ensures
            outcome@ == outcome_of(command@, detail@),
    {
        let succeeded = match &detail {
            Completion::Exited(code) => *code == 0,
            Completion::SpawnFailure(_) => false,
        };
        CommandOutcome { command_text: command.clone(), succeeded, detail }
    }
}

/// The status over a list of outcomes.
pub fn overall_status(outcomes: &Vec<CommandOutcome>) -> (status: OverallStatus)
    ensures
        status == status_of(outcome_views(outcomes@)),
{
    let ghost views = outcome_views(outcomes@);
    let mut at: usize = 0;
    while at < outcomes.len()
        invariant
            at <= outcomes@.len(),
            views == outcome_views(outcomes@),
            forall|i: int| 0 <= i < at ==> (#[trigger] views[i]).succeeded,
        decreases outcomes.len() - at,
    {
        if !outcomes[at].succeeded {
            assert(!views[at as int].succeeded);
            return OverallStatus::SomeFailed;
        }
        at = at + 1;
    }
    OverallStatus::AllSucceeded
}

impl CommandRun {
    #[verifier::type_invariant]
    spec fn in_step(self) -> bool {
        &&& self.outcomes@.len() <= self.commands@.len()
        &&& outcome_views(self.outcomes@) == outcomes_of(
            texts(self.commands@),
            details(outcome_views(self.outcomes@)),
        )
    }

    /// The command lines of the run.
    pub closed spec fn commands(&self) -> Seq<Seq<char>> {
        texts(self.commands@)
    }

    /// What became of the commands attempted so far.
    pub closed spec fn results(&self) -> Seq<CompletionView> {
        details(outcome_views(self.outcomes@))
    }

    /// Whether every command has been attempted.
    pub open spec fn finished(&self) -> bool {
        self.results().len() == self.commands().len()
    }

    /// A run of `commands` of which none has been attempted yet.
    pub fn new(commands: Vec<String>) -> (run: CommandRun)
        ensures
            run.commands() == texts(commands@),
            run.results() == Seq::<CompletionView>::empty(),
    {
        let outcomes: Vec<CommandOutcome> = Vec::new();
        proof {
            assert(details(outcome_views(outcomes@)) =~= Seq::<CompletionView>::empty());
            assert(outcome_views(outcomes@) =~= outcomes_of(
                texts(commands@),
                details(outcome_views(outcomes@)),
            ));
        }
        CommandRun { commands, outcomes }
    }

    /// How many commands the run has.
    pub fn command_count(&self) -> (count: usize)
        ensures
            count == self.commands().len(),
    {
        self.commands.len()
    }

    /// The line of the command to attempt next; `None` when every command
    /// has been attempted.
    pub fn next_command(&self) -> (line: Option<&String>)
        ensures
            match line {
                Some(text) => self.results().len() < self.commands().len() && text@
                    == self.commands()[self.results().len() as int],
                None => self.finished(),
            },
    {
        proof {
            use_type_invariant(self);
        }
        let at: usize = self.outcomes.len();
        if at < self.commands.len() {
            Some(&self.commands[at])
        } else {
            None
        }
    }

    /// Whether every command has been attempted.
    pub fn is_finished(&self) -> (done: bool)
        ensures
            done == self.finished(),
    {
        self.outcomes.len() == self.commands.len()
    }

    /// The command to attempt next, cut into program and arguments; `None`
    /// when every command has been attempted.
    pub fn next_invocation(&self) -> (next: Option<Invocation>)
        ensures
            match next {
                Some(invocation) => self.results().len() < self.commands().len() && invocation@
                    == invocation_of(self.commands()[self.results().len() as int]),
                None => self.finished(),
            },
    {
        proof {
            use_type_invariant(self);
        }
        let at: usize = self.outcomes.len();
        if at < self.commands.len() {
            Some(plan_command(self.commands[at].as_str()))
        } else {
            None
        }
    }

    /// The run after the command that `next_invocation` gave ended as
    /// `result` says. Where every command already has its result, the run
    /// stays as it is.
    pub fn record(self, result: Completion) -> (next: CommandRun)
        ensures
            next.commands() == self.commands(),
            next.results().len() <= next.commands().len(),
            next.results() == if self.finished() {
                self.results()
            } else {
                self.results().push(result@)
            },
    {
        proof {
            use_type_invariant(&self);
        }
        if self.outcomes.len() < self.commands.len() {
            let CommandRun { commands, mut outcomes } = self;
            let outcome = CommandOutcome::new(&commands[outcomes.len()], result);
            proof {
                let before = outcome_views(outcomes@);
                let after = outcome_views(outcomes@.push(outcome));
                assert(after =~= before.push(outcome@));
                assert(details(after) =~= details(before).push(result@));
                assert(after =~= outcomes_of(texts(commands@), details(after)));
            }
            outcomes.push(outcome);
            CommandRun { commands, outcomes }
        } else {
            self
        }
    }

    /// Ends the run: one outcome for each command attempted, in order, and
    /// the status over them.
    pub fn finish(self) -> (report: RunReport)
        ensures
            self.results().len() <= self.commands().len(),
            outcome_views(report.outcomes@) == outcomes_of(self.commands(), self.results()),
            report.status == status_of(outcome_views(report.outcomes@)),
    {
        proof {
            use_type_invariant(&self);
        }
        let status = overall_status(&self.outcomes);
        RunReport { status, outcomes: self.outcomes }
    }
}

/// How many commands are attempted when `results` results are there for
/// `commands` commands: one for each result, but no more than there are
/// commands.
pub open spec fn attempted(commands: nat, results: nat) -> nat {
    if results <= commands {
        results
    } else {
        commands
    }
}

/// The report of a run of `commands` in which the first command ended as
/// the first of `results` says, and so on. Every command that has a result
/// is reported, whatever became of those before it; the status is
/// `AllSucceeded` only if each of them ended with exit code 0.
pub fn execute_command_from_list(commands: Vec<String>, results: &Vec<Completion>) -> (report:
    RunReport)
    ensures
        outcome_views(report.outcomes@) == outcomes_of(
            texts(commands@),
            completion_views(results@).take(attempted(commands@.len(), results@.len()) as int),
        ),
        report.status == status_of(outcome_views(report.outcomes@)),
{
    let mut run = CommandRun::new(commands);
    let count: usize = if results.len() <= run.command_count() {
        results.len()
    } else {
        run.command_count()
    };
    let mut at: usize = 0;
    proof {
        assert(completion_views(results@).take(0) =~= Seq::<CompletionView>::empty());
    }
    while at < count
        invariant
            at <= count,
            count == attempted(commands@.len(), results@.len()),
            run.commands() == texts(commands@),
            run.results() == completion_views(results@).take(at as int),
        decreases count - at,
    {
        proof {
            assert(completion_views(results@).take(at as int).push(
                completion_views(results@)[at as int],
            ) =~= completion_views(results@).take(at as int + 1));
        }
        run = run.record(results[at].copy());
        at = at + 1;
    }
    run.finish()
}

} // verus!
