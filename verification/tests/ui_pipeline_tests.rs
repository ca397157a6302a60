use aoe_archive::config::{AoE1, AoE2, Config, Goldberg};
use aoe_archive::ctx::{Ctx, StepStatus, Task};
use aoe_archive::game::{Game, GameDisc};
use aoe_archive::pipeline::{
    finish_step, start_step, RunAction, RunAll, RunStep, StartError, StepOutcome,
};
use aoe_archive::ui::{clean_message, log_line, to_ui_status, LogBook, UiStepStatus, LOG_CAPACITY};

fn pipeline_ctx() -> Ctx {
    let s = |x: &str| x.to_string();
    let a2 = AoE2 {
        gh_companion_user: s("a"),
        gh_companion_repo: s("b"),
        gh_launcher_user: s("c"),
        gh_launcher_repo: s("d"),
        launcher_version: s("e"),
    };
    let a1 = AoE1 {
        gh_companion_user: s("a"),
        gh_companion_repo: s("b"),
        gh_launcher_user: s("c"),
        gh_launcher_repo: s("d"),
        launcher_version: s("e"),
    };
    let g = Goldberg { gh_user: s("g"), gh_repo: s("h"), version: s("i") };
    Ctx::new(Config { goldberg: g, aoe2: a2, aoe1: a1 }, s("out"), s("out1"))
}

#[test]
fn ui_statuses() {
    assert_eq!(to_ui_status(&StepStatus::NotStarted), UiStepStatus::NotStarted);
    assert_eq!(to_ui_status(&StepStatus::InProgress), UiStepStatus::InProgress);
    assert_eq!(to_ui_status(&StepStatus::Completed), UiStepStatus::Completed);
    assert_eq!(to_ui_status(&StepStatus::Failed("x".to_string())), UiStepStatus::Failed);
}

#[test]
fn log_keeps_newest_hundred() {
    let mut log = LogBook::new();
    for i in 0..150 {
        log.push(format!("line {i}"));
    }
    assert_eq!(log.len(), LOG_CAPACITY);
    assert_eq!(log.line(0), "line 149");
    assert_eq!(log.line(99), "line 50");
}

#[test]
fn log_messages() {
    assert_eq!(clean_message("\"quoted\""), "quoted");
    assert_eq!(clean_message("\"\""), "");
    assert_eq!(clean_message("plain"), "plain");
    assert_eq!(clean_message("\"half"), "\"half");
    assert_eq!(log_line("INFO", "Done installing goldberg").unwrap(), "[INFO] Done installing goldberg");
    assert!(log_line("INFO", "").is_none());
}

#[test]
fn run_all_in_order() {
    let (mut run, first) = RunAll::new(GameDisc::Aoe2);
    assert_eq!(first, RunAction::Start(RunStep::Copy));
    assert_eq!(run.game(), GameDisc::Aoe2);
    assert_eq!(run.advance(StepOutcome::Completed), RunAction::Start(RunStep::Goldberg));
    assert_eq!(run.advance(StepOutcome::Completed), RunAction::Start(RunStep::Companion));
    assert_eq!(run.advance(StepOutcome::Completed), RunAction::Start(RunStep::Launcher));
    assert_eq!(run.advance(StepOutcome::Completed), RunAction::Finished);
}

#[test]
fn run_all_stops_on_failure() {
    let (mut run, _) = RunAll::new(GameDisc::Aoe1);
    assert_eq!(run.advance(StepOutcome::Completed), RunAction::Start(RunStep::Goldberg));
    assert_eq!(run.advance(StepOutcome::Failed), RunAction::Stopped { report: false });
    let (mut run, _) = RunAll::new(GameDisc::Aoe1);
    assert_eq!(run.advance(StepOutcome::Refused), RunAction::Stopped { report: true });
    assert_eq!(run.advance(StepOutcome::Completed), RunAction::Stopped { report: false });
}

#[test]
fn steps_take_the_task_slot() {
    let mut c = pipeline_ctx();
    assert!(matches!(start_step(&mut c, GameDisc::Aoe2, RunStep::Copy), Err(StartError::NoSource)));
    assert!(!c.is_busy());
    c.set_sourcedir(Game::parse("aoe2").unwrap(), "src".to_string());
    let g = start_step(&mut c, GameDisc::Aoe2, RunStep::Copy).unwrap();
    assert_eq!(g.task(), Task::Copy);
    assert_eq!(c.step_status(GameDisc::Aoe2, 0), &StepStatus::InProgress);
    assert!(matches!(start_step(&mut c, GameDisc::Aoe2, RunStep::Goldberg), Err(StartError::Busy(_))));
    finish_step(&mut c, GameDisc::Aoe2, RunStep::Copy, g, Ok(()));
    assert!(!c.is_busy());
    assert_eq!(c.step_status(GameDisc::Aoe2, 0), &StepStatus::Completed);
    let g = start_step(&mut c, GameDisc::Aoe2, RunStep::Goldberg).unwrap();
    assert_eq!(c.step_status(GameDisc::Aoe2, 1), &StepStatus::InProgress);
    finish_step(&mut c, GameDisc::Aoe2, RunStep::Goldberg, g, Err("no network".to_string()));
    assert_eq!(c.step_status(GameDisc::Aoe2, 1), &StepStatus::Failed("no network".to_string()));
    assert_eq!(c.step_status(GameDisc::Aoe1, 1), &StepStatus::NotStarted);
    assert_eq!(RunStep::Launcher.index(), 3);
    assert_eq!(RunStep::Companion.task(), Task::Companion);
}
