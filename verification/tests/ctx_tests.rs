use aoe_archive::config::{AoE1, AoE2, Config, Goldberg};
use aoe_archive::ctx::{CopyStartError, Ctx, StepStatus, Task, TaskError, TaskReset};
use aoe_archive::game::{Game, GameDisc};

pub fn sample_config() -> Config {
    Config {
        goldberg: Goldberg {
            gh_user: "Detanup01".to_string(),
            gh_repo: "gbe_fork".to_string(),
            version: "release-2025_01_01".to_string(),
        },
        aoe2: AoE2 {
            gh_companion_user: "luskaner".to_string(),
            gh_companion_repo: "ageLANServerLauncherCompanion".to_string(),
            gh_launcher_user: "luskaner".to_string(),
            gh_launcher_repo: "ageLANServer".to_string(),
            launcher_version: "v1.9.0".to_string(),
        },
        aoe1: AoE1 {
            gh_companion_user: "luskaner".to_string(),
            gh_companion_repo: "ageLANServerLauncherCompanion".to_string(),
            gh_launcher_user: "luskaner".to_string(),
            gh_launcher_repo: "ageLANServer".to_string(),
            launcher_version: "v1.8.0".to_string(),
        },
    }
}

fn fresh() -> Ctx {
    Ctx::new(sample_config(), "C:\\Users\\me\\Desktop\\AoE".to_string(), "C:\\AoE1".to_string())
}

#[test]
fn fresh_state() {
    let c = fresh();
    assert!(c.sourcedir(&GameDisc::Aoe1).is_none());
    assert!(c.sourcedir(&GameDisc::Aoe2).is_none());
    assert_eq!(c.outdir(), "C:\\Users\\me\\Desktop\\AoE");
    assert_eq!(c.aoe1_outdir(), "C:\\AoE1");
    assert_eq!(c.game_outdir(GameDisc::Aoe1), "C:\\AoE1");
    assert!(!c.is_busy());
    for i in 0..4 {
        assert_eq!(c.step_status(GameDisc::Aoe2, i), &StepStatus::NotStarted);
    }
    assert_eq!(c.config().goldberg.gh_repo, "gbe_fork");
}

#[test]
fn source_and_outdirs() {
    let mut c = fresh();
    c.set_sourcedir(Game::parse("aoe2").unwrap(), "D:\\Steam\\AoE2DE".to_string());
    assert_eq!(c.sourcedir(&GameDisc::Aoe2).unwrap(), "D:\\Steam\\AoE2DE");
    assert!(c.sourcedir(&GameDisc::Aoe1).is_none());
    c.set_outdir("E:\\Out".to_string());
    assert_eq!(c.outdir(), "E:\\Out");
    assert_eq!(c.aoe1_outdir(), "C:\\AoE1");
    c.set_aoe1_outdir("E:\\Out1".to_string());
    assert_eq!(c.game_outdir(GameDisc::Aoe1), "E:\\Out1");
}

#[test]
fn one_task_at_a_time() {
    let mut c = fresh();
    let guard = c.set_task(Task::Goldberg).unwrap();
    assert_eq!(guard.task(), Task::Goldberg);
    assert!(c.is_busy());
    let err = c.set_task(Task::Copy).err().unwrap();
    match &err {
        TaskError::AlreadyRunning(t) => assert_eq!(*t, Task::Goldberg),
    }
    assert_eq!(err.message(), "Task already running: Goldberg");
    c.finish_task(guard);
    assert!(!c.is_busy());
    let again = c.set_task(Task::Copy).unwrap();
    assert_eq!(again.task(), Task::Copy);
}

#[test]
fn finishing_a_token_frees_the_slot() {
    let mut c = fresh();
    let _ = c.set_task(Task::Launcher).unwrap();
    c.finish_task(TaskReset::new(Task::Launcher));
    assert!(!c.is_busy());
}

#[test]
fn step_statuses() {
    let mut c = fresh();
    c.set_step_status(1, StepStatus::InProgress);
    c.set_step_status(7, StepStatus::Completed);
    assert_eq!(c.step_status(GameDisc::Aoe2, 1), &StepStatus::InProgress);
    assert_eq!(c.step_status(GameDisc::Aoe2, 0), &StepStatus::NotStarted);
    assert_eq!(c.step_status(GameDisc::Aoe2, 3), &StepStatus::NotStarted);
    assert_eq!(c.step_status(GameDisc::Aoe1, 1), &StepStatus::NotStarted);
    c.set_aoe1_step_status(3, StepStatus::Failed("boom".to_string()));
    assert_eq!(c.step_status(GameDisc::Aoe1, 3), &StepStatus::Failed("boom".to_string()));
    c.set_game_step_status(GameDisc::Aoe1, 0, StepStatus::Completed);
    assert_eq!(c.step_status(GameDisc::Aoe1, 0), &StepStatus::Completed);
}

#[test]
fn run_all_availability() {
    let mut c = fresh();
    assert!(!c.can_run_all(GameDisc::Aoe2));
    c.set_sourcedir(Game::parse("aoe2").unwrap(), "D:\\AoE2DE".to_string());
    assert!(c.can_run_all(GameDisc::Aoe2));
    assert!(!c.can_run_all(GameDisc::Aoe1));
    let g = c.set_task(Task::Copy).unwrap();
    assert!(!c.can_run_all(GameDisc::Aoe2));
    c.finish_task(g);
    c.set_step_status(0, StepStatus::Completed);
    assert!(!c.can_run_all(GameDisc::Aoe2));
}

#[test]
fn copy_needs_a_source() {
    let mut c = fresh();
    match c.begin_copy(GameDisc::Aoe2) {
        Err(CopyStartError::NoSource) => {}
        _ => panic!("expected NoSource"),
    }
    assert!(!c.is_busy());
    c.set_sourcedir(Game::parse("aoe2").unwrap(), "D:\\AoE2DE".to_string());
    let g = c.begin_copy(GameDisc::Aoe2).unwrap();
    assert_eq!(g.task(), Task::Copy);
    assert!(c.is_busy());
    match c.begin_copy(GameDisc::Aoe2) {
        Err(CopyStartError::Busy(TaskError::AlreadyRunning(Task::Copy))) => {}
        _ => panic!("expected Busy"),
    }
}
