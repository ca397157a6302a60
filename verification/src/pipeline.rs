//! Running a whole installation: the four steps one after the other, each
//! as a task of its own, stopping at the first step that does not complete.

use vstd::prelude::*;
use crate::ctx::{Ctx, CopyStartError, StepStatus, Task, TaskError, TaskReset, STEP_COUNT};
use crate::game::GameDisc;

verus! {

/// A step of an installation.
#[derive(Clone, Copy, Debug, PartialEq, Eq, Structural)]
pub enum RunStep {
    Copy,
    Goldberg,
    Companion,
    Launcher,
}

/// The position of a step: the step's status has this index.
pub open spec fn spec_step_index(s: RunStep) -> nat {
    match s {
        RunStep::Copy => 0,
        RunStep::Goldberg => 1,
        RunStep::Companion => 2,
        RunStep::Launcher => 3,
    }
}

/// The step at a position.
pub open spec fn spec_step_at(i: nat) -> RunStep {
    if i == 0 {
        RunStep::Copy
    } else if i == 1 {
        RunStep::Goldberg
    } else if i == 2 {
        RunStep::Companion
    } else {
        RunStep::Launcher
    }
}

/// The task a step runs as.
pub open spec fn spec_step_task(s: RunStep) -> Task {
    match s {
        RunStep::Copy => Task::Copy,
        RunStep::Goldberg => Task::Goldberg,
        RunStep::Companion => Task::Companion,
        RunStep::Launcher => Task::Launcher,
    }
}

impl RunStep {
    /// The position of the step.
    pub fn index(&self) -> (r: usize)
        ensures
            r == spec_step_index(*self),
            r < STEP_COUNT,
    {
        match self {
            RunStep::Copy => 0,
            RunStep::Goldberg => 1,
            RunStep::Companion => 2,
            RunStep::Launcher => 3,
        }
    }

    /// The task the step runs as.
    pub fn task(&self) -> (r: Task)
        ensures
            r == spec_step_task(*self),
    {
        match self {
            RunStep::Copy => Task::Copy,
            RunStep::Goldberg => Task::Goldberg,
            RunStep::Companion => Task::Companion,
            RunStep::Launcher => Task::Launcher,
        }
    }

    fn at(i: usize) -> (r: RunStep)
        requires
            i < STEP_COUNT,
        ensures
            r == spec_step_at(i as nat),
            spec_step_index(r) == i,
    {
        if i == 0 {
            RunStep::Copy
        } else if i == 1 {
            RunStep::Goldberg
        } else if i == 2 {
            RunStep::Companion
        } else {
            RunStep::Launcher
        }
    }
}

/// How a step ended.
#[derive(Clone, Copy, Debug, PartialEq, Eq, Structural)]
pub enum StepOutcome {
    /// The step could not start (another task was running, or no source).
    Refused,
    /// The step ran and failed.
    Failed,
    /// The step ran and completed.
    Completed,
}

/// What to do next.
#[derive(Clone, Copy, Debug, PartialEq, Eq, Structural)]
pub enum RunAction {
    /// Start this step.
    Start(RunStep),
    /// Every step completed.
    Finished,
    /// The run stops. `report` is set when a step could not start: the
    /// reason it was refused is then reported. A step that failed while
    /// running has reported its failure itself.
    Stopped { report: bool },
}

/// The progress of a whole installation of one game.
pub struct RunAll {
    game: GameDisc,
    next: usize,
    over: bool,
}

impl RunAll {
    /// The number of steps completed so far.
    pub closed spec fn completed(&self) -> nat {
        self.next as nat
    }

    /// Whether the run has ended.
    pub closed spec fn is_over(&self) -> bool {
        self.over
    }

    pub closed spec fn spec_game(&self) -> GameDisc {
        self.game
    }

    /// The count of completed steps stays below the number of steps: the
    /// run ends when the last step completes.
    #[verifier::type_invariant]
    closed spec fn wf(&self) -> bool {
        self.next < STEP_COUNT
    }

    /// A run of a game's installation; its first action is to start the copy.
    pub fn new(game: GameDisc) -> (r: (RunAll, RunAction))
        ensures
            r.0.completed() == 0,
            !r.0.is_over(),
            r.0.spec_game() == game,
            r.1 == RunAction::Start(RunStep::Copy),
    {
        (RunAll { game, next: 0, over: false }, RunAction::Start(RunStep::Copy))
    }

    /// The game being installed.
    pub fn game(&self) -> (r: GameDisc)
        ensures
            r == self.spec_game(),
    {
        self.game
    }

    /// The next action, given how the step last started ended: after a
    /// completed step the next one starts, or the run is finished after the
    /// last one; any other outcome stops the run. A run that has ended
    /// stays as it is and asks for nothing more.
    pub fn advance(&mut self, outcome: StepOutcome) -> (r: RunAction)
        ensures
            final(self).spec_game() == old(self).spec_game(),
            old(self).is_over() ==> r == (RunAction::Stopped { report: false }) && *final(self)
                == *old(self),
            !old(self).is_over() ==> match outcome {
                StepOutcome::Completed => if old(self).completed() + 1 < STEP_COUNT {
                    &&& r == RunAction::Start(spec_step_at(old(self).completed() + 1))
                    &&& final(self).completed() == old(self).completed() + 1
                    &&& !final(self).is_over()
                } else {
                    &&& r == RunAction::Finished
                    &&& final(self).is_over()
                },
                StepOutcome::Failed => r == (RunAction::Stopped { report: false }) && final(self).is_over(),
                StepOutcome::Refused => r == (RunAction::Stopped { report: true }) && final(self).is_over(),
            },
    {
        proof {
            use_type_invariant(&*self);
        }
        if self.over {
            return RunAction::Stopped { report: false };
        }
        match outcome {
            StepOutcome::Completed => {
                if self.next + 1 < STEP_COUNT {
                    self.next = self.next + 1;
                    RunAction::Start(RunStep::at(self.next))
                } else {
                    self.over = true;
                    RunAction::Finished
                }
            },
            StepOutcome::Failed => {
                self.over = true;
                RunAction::Stopped { report: false }
            },
            StepOutcome::Refused => {
                self.over = true;
                RunAction::Stopped { report: true }
            },
        }
    }
}

/// The steps of a run are started in their order: the step started after
/// `k` completed steps is the step at position `k`, so that the copy comes
/// first and the launcher last.
pub proof fn lemma_steps_in_order(k: nat)
    requires
        k < STEP_COUNT,
    ensures
        spec_step_index(spec_step_at(k)) == k,
        spec_step_at(0) == RunStep::Copy,
        spec_step_at((STEP_COUNT - 1) as nat) == RunStep::Launcher,
{
}

/// Why a step could not start.
#[derive(Debug)]
pub enum StartError {
    /// Another task is running.
    Busy(TaskError),
    /// The game has no source folder to copy from.
    NoSource,
}

/// Starts a step of a game's installation: takes the task slot for the
/// step's task (the copy also needs the game's source folder) and marks
/// the step in progress. When the step cannot start nothing changes.
pub fn start_step(ctx: &mut Ctx, game: GameDisc, step: RunStep) -> (r: Result<TaskReset, StartError>)
    ensures
        old(ctx).task() is Some ==> (r matches Err(StartError::Busy(_)) && *final(ctx) == *old(ctx)),
        r matches Err(StartError::Busy(TaskError::AlreadyRunning(t))) ==> old(ctx).task() == Some(t),
        old(ctx).task() is None && step == RunStep::Copy && old(ctx).source_of(game) is None ==> (r
            matches Err(StartError::NoSource) && *final(ctx) == *old(ctx)),
        old(ctx).task() is None && !(step == RunStep::Copy && old(ctx).source_of(game) is None) ==> (r
            matches Ok(g) && g.spec_task() == spec_step_task(step) && final(ctx).task() == Some(
            spec_step_task(step),
        ) && final(ctx).steps(game) == old(ctx).steps(game).update(
            spec_step_index(step) as int,
            StepStatus::InProgress,
        )),
        r is Ok ==> final(ctx).steps(game)[spec_step_index(step) as int] is InProgress,
        r is Ok ==> forall|i: int|
            0 <= i < STEP_COUNT && i != spec_step_index(step) ==> #[trigger] final(ctx).steps(game)[i]
                == old(ctx).steps(game)[i],
        r is Ok ==> forall|d: GameDisc| d != game ==> final(ctx).steps(d) == old(ctx).steps(d),
        forall|d: GameDisc| #[trigger] final(ctx).steps(d).len() == STEP_COUNT,
        forall|d: GameDisc| final(ctx).source_of(d) == old(ctx).source_of(d),
        forall|d: GameDisc| final(ctx).outdir_of(d) == old(ctx).outdir_of(d),
{
    let guard = match step {
        RunStep::Copy => match ctx.begin_copy(game) {
            Ok(g) => g,
            Err(CopyStartError::Busy(e)) => {
                return Err(StartError::Busy(e));
            },
            Err(CopyStartError::NoSource) => {
                return Err(StartError::NoSource);
            },
        },
        _ => match ctx.set_task(step.task()) {
            Ok(g) => g,
            Err(e) => {
                return Err(StartError::Busy(e));
            },
        },
    };
    proof {
        crate::ctx::lemma_task_frame(*old(ctx), spec_step_task(step), game);
        crate::ctx::lemma_task_frame(*old(ctx), spec_step_task(step), crate::game::GameDisc::Aoe1);
        crate::ctx::lemma_task_frame(*old(ctx), spec_step_task(step), crate::game::GameDisc::Aoe2);
    }
    ctx.set_game_step_status(game, step.index(), StepStatus::InProgress);
    Ok(guard)
}

/// Ends a step of a game's installation: records whether it completed or
/// failed (with the failure's message) and frees the task slot.
pub fn finish_step(
    ctx: &mut Ctx,
    game: GameDisc,
    step: RunStep,
    reset: TaskReset,
    result: Result<(), String>,
)
    ensures
        final(ctx).task() is None,
        match result {
            Ok(()) => final(ctx).steps(game) == old(ctx).steps(game).update(
                spec_step_index(step) as int,
                StepStatus::Completed,
            ),
            Err(m) => final(ctx).steps(game) == old(ctx).steps(game).update(
                spec_step_index(step) as int,
                StepStatus::Failed(m),
            ),
        },
        match result {
            Ok(()) => final(ctx).steps(game)[spec_step_index(step) as int] == StepStatus::Completed,
            Err(m) => final(ctx).steps(game)[spec_step_index(step) as int] == StepStatus::Failed(m),
        },
        forall|i: int|
            0 <= i < STEP_COUNT && i != spec_step_index(step) ==> #[trigger] final(ctx).steps(game)[i]
                == old(ctx).steps(game)[i],
        forall|d: GameDisc| #[trigger] final(ctx).steps(d).len() == STEP_COUNT,
        forall|d: GameDisc| d != game ==> final(ctx).steps(d) == old(ctx).steps(d),
        forall|d: GameDisc| final(ctx).source_of(d) == old(ctx).source_of(d),
        forall|d: GameDisc| final(ctx).outdir_of(d) == old(ctx).outdir_of(d),
{
    let status = match result {
        Ok(()) => StepStatus::Completed,
        Err(m) => StepStatus::Failed(m),
    };
    let ghost st = status;
    ctx.set_game_step_status(game, step.index(), status);
    let ghost mid = *ctx;
    ctx.finish_task(reset);
    proof {
        crate::ctx::lemma_task_frame(mid, Task::Copy, game);
        crate::ctx::lemma_task_frame(mid, Task::Copy, crate::game::GameDisc::Aoe1);
        crate::ctx::lemma_task_frame(mid, Task::Copy, crate::game::GameDisc::Aoe2);
        assert(mid.steps(game).len() == STEP_COUNT);
        assert(old(ctx).steps(game).len() == STEP_COUNT);
        assert(ctx.steps(game) == mid.steps(game));
        assert(ctx.steps(game)[spec_step_index(step) as int] == st);
    }
}

} // verus!
