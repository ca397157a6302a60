//! The installer's shared state: the games' source folders, the output
//! folders, the task that is running, and the progress of each step.

use vstd::prelude::*;
use crate::config::Config;
use crate::game::{Game, GameDisc};

verus! {

/// The number of steps of an installation.
pub const STEP_COUNT: usize = 4;

/// A long-running job; at most one runs at a time.
#[derive(Clone, Copy, Debug, PartialEq, Eq, Structural)]
pub enum Task {
    Copy,
    Goldberg,
    Companion,
    Launcher,
}

impl Task {
    /// The task's name as it is shown to the user.
    pub fn name(&self) -> (r: &'static str)
        ensures
            r@ == spec_task_name(*self),
    {
        match self {
            Task::Copy => "Copy",
            Task::Goldberg => "Goldberg",
            Task::Companion => "Companion",
            Task::Launcher => "Launcher",
        }
    }
}

pub open spec fn spec_task_name(t: Task) -> Seq<char> {
    match t {
        Task::Copy => "Copy"@,
        Task::Goldberg => "Goldberg"@,
        Task::Companion => "Companion"@,
        Task::Launcher => "Launcher"@,
    }
}

/// How far one step of an installation has come.
#[derive(Debug, Clone, PartialEq)]
pub enum StepStatus {
    NotStarted,
    InProgress,
    Completed,
    Failed(String),
}

/// Why a task could not start: another one is running (the one named).
#[derive(Debug)]
pub enum TaskError {
    AlreadyRunning(Task),
}

impl TaskError {
    /// The message shown to the user: `Task already running: ` and the task.
    pub fn message(&self) -> (r: String)
        ensures
            self matches TaskError::AlreadyRunning(t) ==> r@ == "Task already running: "@
                + spec_task_name(*t),
    {
        match self {
            TaskError::AlreadyRunning(t) => {
                let mut m = String::from_str("Task already running: ");
                m.append(t.name());
                m
            },
        }
    }
}

/// Why the copy step could not start.
#[derive(Debug)]
pub enum CopyStartError {
    /// Another task is running.
    Busy(TaskError),
    /// No source folder is known for the game.
    NoSource,
}

/// Held while a task runs; handing it back to `Ctx::finish_task` ends the task.
pub struct TaskReset {
    task: Task,
}

impl TaskReset {
    pub closed spec fn spec_task(&self) -> Task {
        self.task
    }

    /// The token of a running task.
    pub fn new(task: Task) -> (r: TaskReset)
        ensures
            r.spec_task() == task,
    {
        TaskReset { task }
    }

    /// The task this token stands for.
    pub fn task(&self) -> (r: Task)
        ensures
            r == self.spec_task(),
    {
        self.task
    }
}

/// The shared state.
pub struct Ctx {
    config: Config,
    aoe1_source: Option<String>,
    aoe2_source: Option<String>,
    outdir: String,
    aoe1_outdir: String,
    current_task: Option<Task>,
    step_status: Vec<StepStatus>,
    aoe1_step_status: Vec<StepStatus>,
}

pub open spec fn opt_view(o: Option<String>) -> Option<Seq<char>> {
    match o {
        Some(s) => Some(s@),
        None => None,
    }
}

impl Ctx {
    /// The state is well formed: each game has one status per step.
    #[verifier::type_invariant]
    closed spec fn wf(&self) -> bool {
        &&& self.step_status@.len() == STEP_COUNT
        &&& self.aoe1_step_status@.len() == STEP_COUNT
    }

    /// The source folder known for a game.
    pub closed spec fn source_of(&self, d: GameDisc) -> Option<Seq<char>> {
        match d {
            GameDisc::Aoe1 => opt_view(self.aoe1_source),
            GameDisc::Aoe2 => opt_view(self.aoe2_source),
        }
    }

    /// The output folder of a game.
    pub closed spec fn outdir_of(&self, d: GameDisc) -> Seq<char> {
        match d {
            GameDisc::Aoe1 => self.aoe1_outdir@,
            GameDisc::Aoe2 => self.outdir@,
        }
    }

    /// The task that is running, if any.
    pub closed spec fn task(&self) -> Option<Task> {
        self.current_task
    }

    /// The status of each step of a game's installation.
    pub closed spec fn steps(&self, d: GameDisc) -> Seq<StepStatus> {
        match d {
            GameDisc::Aoe1 => self.aoe1_step_status@,
            GameDisc::Aoe2 => self.step_status@,
        }
    }

    /// The settings.
    pub closed spec fn spec_config(&self) -> Config {
        self.config
    }

    /// The same state with `t` running.
    pub closed spec fn with_task(self, t: Task) -> Ctx {
        Ctx { current_task: Some(t), ..self }
    }

    /// The same state with no task running.
    pub closed spec fn without_task(self) -> Ctx {
        Ctx { current_task: None, ..self }
    }

    /// Every step of the game's installation is still to do.
    pub open spec fn all_not_started(&self, d: GameDisc) -> bool {
        forall|i: int| 0 <= i < self.steps(d).len() ==> self.steps(d)[i] is NotStarted
    }

    /// A fresh state: no source folders, the given output folders, no task,
    /// and every step still to do.
    pub fn new(config: Config, outdir: String, aoe1_outdir: String) -> (r: Ctx)
        ensures
            forall|d: GameDisc| #[trigger] r.steps(d).len() == STEP_COUNT,
            r.source_of(GameDisc::Aoe1) is None,
            r.source_of(GameDisc::Aoe2) is None,
            r.outdir_of(GameDisc::Aoe2) == outdir@,
            r.outdir_of(GameDisc::Aoe1) == aoe1_outdir@,
            r.task() is None,
            r.all_not_started(GameDisc::Aoe1),
            r.all_not_started(GameDisc::Aoe2),
            r.spec_config() == config,
    {
        let mut s1: Vec<StepStatus> = Vec::new();
        let mut s2: Vec<StepStatus> = Vec::new();
        let mut i: usize = 0;
        while i < STEP_COUNT
            invariant
                i <= STEP_COUNT,
                s1@.len() == i,
                s2@.len() == i,
                forall|j: int| 0 <= j < i ==> s1@[j] is NotStarted,
                forall|j: int| 0 <= j < i ==> s2@[j] is NotStarted,
            decreases STEP_COUNT - i,
        {
            s1.push(StepStatus::NotStarted);
            s2.push(StepStatus::NotStarted);
            i = i + 1;
        }
        Ctx {
            config,
            aoe1_source: None,
            aoe2_source: None,
            outdir,
            aoe1_outdir,
            current_task: None,
            step_status: s2,
            aoe1_step_status: s1,
        }
    }

    /// The settings.
    pub fn config(&self) -> (r: &Config)
        ensures
            *r == self.spec_config(),
    {
        &self.config
    }

    /// The source folder known for a game.
    pub fn sourcedir(&self, game: &GameDisc) -> (r: Option<&String>)
        ensures
            r is None <==> self.source_of(*game) is None,
            r matches Some(s) ==> self.source_of(*game) == Some(s@),
    {
        match game {
            GameDisc::Aoe1 => self.aoe1_source.as_ref(),
            GameDisc::Aoe2 => self.aoe2_source.as_ref(),
        }
    }

    /// The second game's output folder.
    pub fn outdir(&self) -> (r: String)
        ensures
            r@ == self.outdir_of(GameDisc::Aoe2),
    {
        self.outdir.clone()
    }

    /// The first game's output folder.
    pub fn aoe1_outdir(&self) -> (r: String)
        ensures
            r@ == self.outdir_of(GameDisc::Aoe1),
    {
        self.aoe1_outdir.clone()
    }

    /// A game's output folder.
    pub fn game_outdir(&self, game: GameDisc) -> (r: String)
        ensures
            r@ == self.outdir_of(game),
    {
        match game {
            GameDisc::Aoe1 => self.aoe1_outdir.clone(),
            GameDisc::Aoe2 => self.outdir.clone(),
        }
    }

    /// Records the source folder of a game; nothing else changes.
    pub fn set_sourcedir(&mut self, game: Game, path: String)
        ensures
            forall|d: GameDisc| #[trigger] final(self).steps(d).len() == STEP_COUNT,
            final(self).source_of(game.spec_disc()) == Some(path@),
            forall|d: GameDisc| d != game.spec_disc() ==> final(self).source_of(d) == old(self).source_of(d),
            forall|d: GameDisc| final(self).outdir_of(d) == old(self).outdir_of(d),
            forall|d: GameDisc| final(self).steps(d) == old(self).steps(d),
            final(self).task() == old(self).task(),
            final(self).spec_config() == old(self).spec_config(),
    {
        proof {
            use_type_invariant(&*self);
        }
        match game.disc() {
            GameDisc::Aoe1 => self.aoe1_source = Some(path),
            GameDisc::Aoe2 => self.aoe2_source = Some(path),
        }
    }

    /// Records the second game's output folder; nothing else changes.
    pub fn set_outdir(&mut self, path: String)
        ensures
            forall|d: GameDisc| #[trigger] final(self).steps(d).len() == STEP_COUNT,
            final(self).outdir_of(GameDisc::Aoe2) == path@,
            final(self).outdir_of(GameDisc::Aoe1) == old(self).outdir_of(GameDisc::Aoe1),
            forall|d: GameDisc| final(self).source_of(d) == old(self).source_of(d),
            forall|d: GameDisc| final(self).steps(d) == old(self).steps(d),
            final(self).task() == old(self).task(),
            final(self).spec_config() == old(self).spec_config(),
    {
        proof {
            use_type_invariant(&*self);
        }
        self.outdir = path;
    }

    /// Records the first game's output folder; nothing else changes.
    pub fn set_aoe1_outdir(&mut self, path: String)
        ensures
            forall|d: GameDisc| #[trigger] final(self).steps(d).len() == STEP_COUNT,
            final(self).outdir_of(GameDisc::Aoe1) == path@,
            final(self).outdir_of(GameDisc::Aoe2) == old(self).outdir_of(GameDisc::Aoe2),
            forall|d: GameDisc| final(self).source_of(d) == old(self).source_of(d),
            forall|d: GameDisc| final(self).steps(d) == old(self).steps(d),
            final(self).task() == old(self).task(),
            final(self).spec_config() == old(self).spec_config(),
    {
        proof {
            use_type_invariant(&*self);
        }
        self.aoe1_outdir = path;
    }

    /// Sets the status of one step of a game's installation; a step number
    /// past the last step changes nothing.
    pub fn set_game_step_status(&mut self, game: GameDisc, step: usize, status: StepStatus)
        ensures
            forall|d: GameDisc| #[trigger] old(self).steps(d).len() == STEP_COUNT,
            forall|d: GameDisc| #[trigger] final(self).steps(d).len() == STEP_COUNT,
            step < STEP_COUNT ==> final(self).steps(game) == old(self).steps(game).update(
                step as int,
                status,
            ),
            step >= STEP_COUNT ==> final(self).steps(game) == old(self).steps(game),
            forall|d: GameDisc| d != game ==> final(self).steps(d) == old(self).steps(d),
            forall|d: GameDisc| final(self).source_of(d) == old(self).source_of(d),
            forall|d: GameDisc| final(self).outdir_of(d) == old(self).outdir_of(d),
            final(self).task() == old(self).task(),
            final(self).spec_config() == old(self).spec_config(),
    {
        proof {
            use_type_invariant(&*self);
        }
        if step < STEP_COUNT {
            match game {
                GameDisc::Aoe1 => self.aoe1_step_status[step] = status,
                GameDisc::Aoe2 => self.step_status[step] = status,
            }
        }
    }

    /// Sets the status of one step of the second game's installation; a
    /// step number past the last step changes nothing.
    pub fn set_step_status(&mut self, step: usize, status: StepStatus)
        ensures
            forall|d: GameDisc| #[trigger] old(self).steps(d).len() == STEP_COUNT,
            forall|d: GameDisc| #[trigger] final(self).steps(d).len() == STEP_COUNT,
            step < STEP_COUNT ==> final(self).steps(GameDisc::Aoe2) == old(self).steps(
                GameDisc::Aoe2,
            ).update(step as int, status),
            step >= STEP_COUNT ==> final(self).steps(GameDisc::Aoe2) == old(self).steps(
                GameDisc::Aoe2,
            ),
            final(self).steps(GameDisc::Aoe1) == old(self).steps(GameDisc::Aoe1),
            forall|d: GameDisc| final(self).source_of(d) == old(self).source_of(d),
            forall|d: GameDisc| final(self).outdir_of(d) == old(self).outdir_of(d),
            final(self).task() == old(self).task(),
            final(self).spec_config() == old(self).spec_config(),
    {
        self.set_game_step_status(GameDisc::Aoe2, step, status);
    }

    /// Sets the status of one step of the first game's installation; a
    /// step number past the last step changes nothing.
    pub fn set_aoe1_step_status(&mut self, step: usize, status: StepStatus)
        ensures
            forall|d: GameDisc| #[trigger] old(self).steps(d).len() == STEP_COUNT,
            forall|d: GameDisc| #[trigger] final(self).steps(d).len() == STEP_COUNT,
            step < STEP_COUNT ==> final(self).steps(GameDisc::Aoe1) == old(self).steps(
                GameDisc::Aoe1,
            ).update(step as int, status),
            step >= STEP_COUNT ==> final(self).steps(GameDisc::Aoe1) == old(self).steps(
                GameDisc::Aoe1,
            ),
            final(self).steps(GameDisc::Aoe2) == old(self).steps(GameDisc::Aoe2),
            forall|d: GameDisc| final(self).source_of(d) == old(self).source_of(d),
            forall|d: GameDisc| final(self).outdir_of(d) == old(self).outdir_of(d),
            final(self).task() == old(self).task(),
            final(self).spec_config() == old(self).spec_config(),
    {
        self.set_game_step_status(GameDisc::Aoe1, step, status);
    }

    /// The status of one step of a game's installation.
    pub fn step_status(&self, game: GameDisc, step: usize) -> (r: &StepStatus)
        requires
            step < STEP_COUNT,
        ensures
            self.steps(game).len() == STEP_COUNT,
            *r == self.steps(game)[step as int],
    {
        proof {
            use_type_invariant(self);
        }
        match game {
            GameDisc::Aoe1 => &self.aoe1_step_status[step],
            GameDisc::Aoe2 => &self.step_status[step],
        }
    }

    /// Starts a task when none is running; otherwise refuses, naming the
    /// running task, and changes nothing.
    pub fn set_task(&mut self, task: Task) -> (r: Result<TaskReset, TaskError>)
        ensures
            forall|d: GameDisc| #[trigger] final(self).steps(d).len() == STEP_COUNT,
            match old(self).task() {
                None => r matches Ok(g) && g.spec_task() == task && *final(self) == old(self).with_task(task),
                Some(t) => r matches Err(TaskError::AlreadyRunning(u)) && u == t && *final(self)
                    == *old(self),
            },
    {
        proof {
            use_type_invariant(&*self);
        }
        match self.current_task {
            Some(t) => Err(TaskError::AlreadyRunning(t)),
            None => {
                self.current_task = Some(task);
                Ok(TaskReset::new(task))
            },
        }
    }

    /// Ends the running task; nothing else changes.
    pub fn finish_task(&mut self, reset: TaskReset)
        ensures
            forall|d: GameDisc| #[trigger] final(self).steps(d).len() == STEP_COUNT,
            *final(self) == old(self).without_task(),
    {
        proof {
            use_type_invariant(&*self);
        }
        self.current_task = None;
    }

    /// Whether a task is running.
    pub fn is_busy(&self) -> (r: bool)
        ensures
            r == self.task() is Some,
    {
        self.current_task.is_some()
    }

    /// Whether a whole installation of the game can be started: its source
    /// folder is known, no task runs, and no step has started.
    pub fn can_run_all(&self, game: GameDisc) -> (r: bool)
        ensures
            r == (self.source_of(game) is Some && self.task() is None && self.all_not_started(
                game,
            )),
    {
        proof {
            use_type_invariant(self);
        }
        if self.sourcedir(&game).is_none() || self.is_busy() {
            return false;
        }
        let mut i: usize = 0;
        while i < STEP_COUNT
            invariant
                self.steps(game).len() == STEP_COUNT,
                i <= STEP_COUNT,
                forall|j: int| 0 <= j < i ==> self.steps(game)[j] is NotStarted,
            decreases STEP_COUNT - i,
        {
            match self.step_status(game, i) {
                StepStatus::NotStarted => {},
                _ => {
                    return false;
                },
            }
            i = i + 1;
        }
        true
    }

    /// Starts the copy step of a game: takes the task slot, and gives it
    /// back again when the game has no source folder.
    pub fn begin_copy(&mut self, game: GameDisc) -> (r: Result<TaskReset, CopyStartError>)
        ensures
            forall|d: GameDisc| #[trigger] final(self).steps(d).len() == STEP_COUNT,
            match old(self).task() {
                Some(t) => r matches Err(CopyStartError::Busy(TaskError::AlreadyRunning(u)))
                    && u == t && *final(self) == *old(self),
                None => if old(self).source_of(game) is Some {
                    r matches Ok(g) && g.spec_task() == Task::Copy && *final(self) == old(self).with_task(Task::Copy)
                } else {
                    r matches Err(CopyStartError::NoSource) && *final(self) == *old(self)
                },
            },
    {
        proof {
            use_type_invariant(&*self);
        }
        let ghost before = *self;
        let guard = match self.set_task(Task::Copy) {
            Ok(g) => g,
            Err(e) => {
                return Err(CopyStartError::Busy(e));
            },
        };
        if self.sourcedir(&game).is_none() {
            self.finish_task(guard);
            assert(*self == before);
            return Err(CopyStartError::NoSource);
        }
        Ok(guard)
    }
}

/// Starting a task on an idle state and then finishing it gives back the
/// state before the task started.
pub proof fn lemma_task_round_trip(c: Ctx, t: Task)
    requires
        c.task() is None,
    ensures
        c.with_task(t).without_task() == c,
        c.with_task(t).task() == Some(t),
        c.without_task().task() is None,
{
}

/// Starting or finishing a task leaves every other part of the state as it was.
pub proof fn lemma_task_frame(c: Ctx, t: Task, d: GameDisc)
    ensures
        c.with_task(t).task() == Some(t),
        c.without_task().task() is None,
        c.with_task(t).source_of(d) == c.source_of(d),
        c.with_task(t).outdir_of(d) == c.outdir_of(d),
        c.with_task(t).steps(d) == c.steps(d),
        c.without_task().source_of(d) == c.source_of(d),
        c.without_task().outdir_of(d) == c.outdir_of(d),
        c.without_task().steps(d) == c.steps(d),
{
}

} // verus!
