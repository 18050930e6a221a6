use oav_lib::docker::{
    container_result, log_action, poll_step, replace_run, start_decision, user_args, user_flag, ChildStatus, ContainerResult,
    LogAction, OutputLine, PollAction,
};

#[test]
fn user_args_returns_pair() {
    let args = user_args(501, 20);
    assert_eq!(args.len(), 2);
    assert_eq!(args[0], "--user");
    assert!(args[1].contains(':'));
    assert_eq!(args[1], "501:20");
    assert_eq!(user_args(0, 4294967295)[1], "0:4294967295");
}

#[test]
fn user_flag_matches_user_args() {
    let flag = user_flag(1000, 100);
    let args = user_args(1000, 100);
    assert_eq!(flag, format!("{} {}", args[0], args[1]));
}

#[test]
fn container_result_success_means_exit_zero() {
    assert!(container_result(Some(0), false, false).success);
    assert!(!container_result(Some(1), false, false).success);
    assert!(!container_result(None, false, true).success);
}

#[test]
fn poll_decisions() {
    let done = poll_step(ChildStatus::Exited(Some(0)), true, 0, 1);
    assert_eq!(
        done,
        PollAction::Finish(ContainerResult {
            success: true,
            exit_code: Some(0),
            cancelled: false,
            timed_out: false
        })
    );
    assert!(matches!(
        poll_step(ChildStatus::Running, true, 0, 10),
        PollAction::KillAndFinish(ContainerResult { cancelled: true, .. })
    ));
    assert!(matches!(
        poll_step(ChildStatus::Running, false, 10_000_000_001, 10),
        PollAction::KillAndFinish(ContainerResult { timed_out: true, .. })
    ));
    assert_eq!(poll_step(ChildStatus::Running, false, 10_000_000_000, 10), PollAction::Wait);
    assert!(matches!(
        poll_step(ChildStatus::Unknown, false, 0, 10),
        PollAction::Finish(ContainerResult { success: false, exit_code: None, .. })
    ));
}

#[test]
fn log_decisions() {
    match log_action(Some(OutputLine::Stderr("x".into())), true) {
        LogAction::Append { line, echo_stdout, echo_stderr } => {
            assert_eq!(line, "x");
            assert!(!echo_stdout && echo_stderr);
        }
        other => panic!("unexpected {other:?}"),
    }
    assert!(matches!(log_action(None, true), LogAction::Report(false)));
    let timed_out = container_result(None, false, true);
    assert!(matches!(log_action(Some(OutputLine::Done(timed_out)), false), LogAction::TimedOut));
    let ok = container_result(Some(0), false, false);
    assert!(matches!(log_action(Some(OutputLine::Done(ok)), false), LogAction::Report(true)));
}

#[test]
fn start_decision_follows_config_and_running_token() {
    let mut cfg = oav_lib::config::Config::default();
    cfg.compile = false;
    cfg.manage_gitignore = true;
    let a = start_decision(&cfg, true);
    assert!(!a.check_compose);
    assert!(a.update_gitignore);
    assert!(a.cancel_previous);
    cfg.compile = true;
    cfg.manage_gitignore = false;
    let b = start_decision(&cfg, false);
    assert!(b.check_compose && !b.update_gitignore && !b.cancel_previous);
}

#[test]
fn replace_run_keeps_the_newest_and_hands_back_the_old() {
    let mut slot: Option<u32> = None;
    assert_eq!(replace_run(&mut slot, 1), None);
    assert_eq!(slot, Some(1));
    assert_eq!(replace_run(&mut slot, 2), Some(1));
    assert_eq!(slot, Some(2));
}
