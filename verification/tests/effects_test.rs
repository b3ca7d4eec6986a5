use apprunner::app::Launch;
use apprunner::db::models::AppConfig;
use apprunner::effects::{
    after_session_exit, cron_due, cron_fire, plan_action, AppModel, Effect, SelectedApp,
    SelectedMask,
};
use apprunner::template::TemplateVar;
use apprunner::tui::input::Action;

fn config(id: i64, name: &str) -> AppConfig {
    AppConfig {
        id,
        name: name.to_string(),
        working_dir: "/srv/{{env}}".to_string(),
        command: "run --port {{port}}".to_string(),
        env_vars: "{}".to_string(),
        auto_start: false,
        max_runtime_secs: None,
        interval_seconds: None,
        template_vars: vec![],
        created_at: "2024-01-01".to_string(),
    }
}

fn with_defaults(mut a: AppConfig) -> AppConfig {
    a.template_vars = vec![
        TemplateVar { name: "env".to_string(), description: String::new(), default: Some("dev".to_string()) },
        TemplateVar { name: "port".to_string(), description: String::new(), default: Some("80".to_string()) },
    ];
    a
}

fn model(app: AppConfig, running: bool, last: Option<Launch>) -> AppModel {
    AppModel { app: Some(SelectedApp { app, running, last_launch: last }), mask: None }
}

fn launch(dir: &str, cmd: &str) -> Launch {
    Launch { working_dir: dir.to_string(), command: cmd.to_string(), env_vars: "{}".to_string() }
}

#[test]
fn start_with_defaults_fills_them_in() {
    let effects = plan_action(&model(with_defaults(config(1, "api")), false, None), Action::StartApp);
    assert_eq!(effects.len(), 1);
    match &effects[0] {
        Effect::StartIfIdle(1, l, fail) => {
            assert_eq!(l.working_dir, "/srv/dev");
            assert_eq!(l.command, "run --port 80");
            assert_eq!(fail, "Failed to start api: ");
        }
        other => panic!("unexpected {:?}", other),
    }
}

#[test]
fn restart_reuses_the_current_runs_values() {
    let last = launch("/srv/prod", "run --port 9000");
    let effects = plan_action(&model(with_defaults(config(2, "api")), true, Some(last)), Action::RestartApp);
    assert_eq!(effects.len(), 2);
    match &effects[0] {
        Effect::Restart(2, l, fail) => {
            assert_eq!(l.working_dir, "/srv/prod");
            assert_eq!(l.command, "run --port 9000");
            assert_eq!(fail, "Failed to restart api: ");
        }
        other => panic!("unexpected {:?}", other),
    }
    assert!(matches!(effects[1], Effect::ClearScrollback(2)));
}

#[test]
fn restart_without_a_run_uses_the_defaults() {
    let effects = plan_action(&model(with_defaults(config(2, "api")), false, None), Action::RestartApp);
    match &effects[0] {
        Effect::Restart(2, l, _) => assert_eq!(l.command, "run --port 80"),
        other => panic!("unexpected {:?}", other),
    }
}

#[test]
fn cron_stop_deactivates_and_stops_a_run() {
    let mut a = config(3, "job");
    a.interval_seconds = Some(30);
    let effects = plan_action(&model(a, true, None), Action::StopApp);
    assert!(matches!(effects[0], Effect::DeactivateCron(3)));
    assert!(matches!(effects[1], Effect::StopIfRunning(3)));
    assert_eq!(effects.len(), 2);
}

#[test]
fn cron_restart_runs_now_unless_running() {
    let mut a = config(4, "job");
    a.interval_seconds = Some(30);
    let idle = plan_action(&model(a.clone(), false, None), Action::RestartApp);
    assert!(matches!(idle[0], Effect::MarkCronRun(4)));
    assert!(matches!(idle[1], Effect::StartNow(4, _, _)));
    assert!(matches!(idle[2], Effect::ScheduleCron(4, 30)));
    let busy = plan_action(&model(a, true, None), Action::RestartApp);
    assert_eq!(busy.len(), 1);
    assert!(matches!(busy[0], Effect::ScheduleCron(4, 30)));
}

#[test]
fn plain_stop_reports_failures_and_delete_orders_its_steps() {
    let stop = plan_action(&model(config(5, "web"), true, None), Action::StopApp);
    match &stop[0] {
        Effect::Stop(5, fail) => assert_eq!(fail, "Failed to stop web: "),
        other => panic!("unexpected {:?}", other),
    }
    let delete = plan_action(&model(config(5, "web"), true, None), Action::DeleteApp);
    assert!(matches!(delete[0], Effect::StopQuietly(5)));
    assert!(matches!(delete[1], Effect::ForgetProcess(5)));
    assert!(matches!(delete[2], Effect::DeleteAppRecord(5, _)));
}

#[test]
fn attach_requires_ghostty_first() {
    let effects = plan_action(&model(config(6, "web"), true, None), Action::AttachApp);
    assert!(matches!(effects[0], Effect::RequireGhostty));
    assert!(matches!(effects[1], Effect::StopIfRunning(6)));
    match &effects[2] {
        Effect::SpawnGhostty(6, dir, cmd, fail) => {
            assert_eq!(dir, "/srv/{{env}}");
            assert_eq!(cmd, "run --port {{port}}");
            assert_eq!(fail, "Failed to attach web: ");
        }
        other => panic!("unexpected {:?}", other),
    }
}

#[test]
fn nothing_selected_does_nothing() {
    let empty = AppModel { app: None, mask: None };
    assert!(plan_action(&empty, Action::StartApp).is_empty());
    assert!(plan_action(&empty, Action::DeleteMask).is_empty());
    assert_eq!(plan_action(&empty, Action::NewApp).len(), 1);
}

#[test]
fn mask_delete_shuts_down_then_deletes() {
    let m = AppModel { app: None, mask: Some(SelectedMask { id: 9, name: "stripe".to_string() }) };
    let effects = plan_action(&m, Action::DeleteMask);
    assert!(matches!(effects[0], Effect::ShutdownProxy(9)));
    assert!(matches!(effects[1], Effect::ForgetMask(9)));
    match &effects[2] {
        Effect::DeleteMaskRecord(9, fail) => assert_eq!(fail, "Failed to delete mask stripe: "),
        other => panic!("unexpected {:?}", other),
    }
}

#[test]
fn cron_due_needs_active_due_and_idle() {
    assert!(cron_due(true, Some(100), 100, false));
    assert!(!cron_due(true, Some(101), 100, false));
    assert!(!cron_due(false, Some(100), 200, false));
    assert!(!cron_due(true, Some(100), 200, true));
    assert!(!cron_due(true, None, 200, false));
}

#[test]
fn cron_fire_counts_runs_starts_and_reschedules() {
    let mut a = config(7, "job");
    a.interval_seconds = None;
    let effects = cron_fire(&a, &None);
    assert!(matches!(effects[0], Effect::MarkCronRun(7)));
    match &effects[1] {
        Effect::StartNow(7, _, fail) => assert_eq!(fail, "Cron job 7 failed to start: "),
        other => panic!("unexpected {:?}", other),
    }
    assert!(matches!(effects[2], Effect::ScheduleCron(7, 60)));
}

#[test]
fn session_exit_restarts_only_auto_start_apps() {
    let mut a = with_defaults(config(8, "api"));
    assert!(after_session_exit(&a, &None).is_none());
    a.auto_start = true;
    let l = after_session_exit(&a, &None).unwrap();
    assert_eq!(l.command, "run --port 80");
    let last = launch("/x", "y");
    assert_eq!(after_session_exit(&a, &Some(last)).unwrap().command, "y");
}
