use mazegame::load::{Completion, Phase, Load, ProgressCounter, Trans};

#[test]
fn one_failed_asset_fails_loading() {
    let mut progress = ProgressCounter::new();
    progress.add_assets(2);
    let mut loading = Load::new();
    assert_eq!(loading.update(&progress), Trans::Wait);
    assert!(progress.success());
    assert_eq!(loading.update(&progress), Trans::Wait);
    assert!(progress.fail(String::from("maze.ron: bad layout")));
    assert_eq!(progress.complete(), Completion::Failed);
    assert_eq!(loading.update(&progress), Trans::Quit);
    assert_eq!(loading.state, Phase::Failed);
    assert_eq!(progress.errors().len(), 1);
    assert_eq!(progress.errors()[0], "maze.ron: bad layout");
    assert_eq!(loading.update(&progress), Trans::Wait);
    assert_eq!(loading.state, Phase::Failed);
}

#[test]
fn all_assets_loaded_switches_to_running() {
    let mut progress = ProgressCounter::new();
    progress.add_assets(2);
    let mut loading = Load::new();
    assert!(progress.success());
    assert_eq!(progress.complete(), Completion::Loading);
    assert!(progress.success());
    assert_eq!(progress.complete(), Completion::Complete);
    assert_eq!(loading.update(&progress), Trans::Switch);
    assert_eq!(loading.state, Phase::Running);
    assert_eq!(loading.update(&progress), Trans::Wait);
    assert_eq!(loading.state, Phase::Running);
}

#[test]
fn failure_is_reported_before_others_finish() {
    let mut progress = ProgressCounter::new();
    progress.add_assets(3);
    assert!(progress.fail(String::from("maze.png")));
    assert_eq!(progress.complete(), Completion::Failed);
    let mut loading = Load::new();
    assert_eq!(loading.update(&progress), Trans::Quit);
}

#[test]
fn empty_batch_is_complete() {
    let progress = ProgressCounter::new();
    assert_eq!(progress.complete(), Completion::Complete);
    let mut loading = Load::new();
    assert_eq!(loading.update(&progress), Trans::Switch);
}

#[test]
fn reports_beyond_the_batch_are_ignored() {
    let mut progress = ProgressCounter::new();
    progress.add_assets(1);
    assert!(progress.success());
    assert!(!progress.success());
    assert!(!progress.fail(String::from("late")));
    assert_eq!(progress.num_assets(), 1);
    assert_eq!(progress.num_finished(), 1);
    assert_eq!(progress.num_failed(), 0);
    assert_eq!(progress.complete(), Completion::Complete);
}
