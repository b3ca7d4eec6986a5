//! What the keys that act on apps and masks do, and what a tick decides:
//! from the selected app or mask and an action to the steps the event loop
//! carries out, in order.

use vstd::prelude::*;

use crate::app::{
    defaults_resolved, interval_of, interval_secs, launch_spec, launch_view, launch_with, plain,
    plain_launch, plan_start, start_spec, Launch, StartPlan, StartPlanView,
};
use crate::db::models::AppConfig;
use crate::strmap::{map_new, string_map};
use crate::template::resolve_values;
use crate::text::{i64_to_string, push_str, signed_decimal, to_owned_string};
use crate::tui::input::Action;

verus! {

/// A step for the event loop. Where a step can fail it carries the text an
/// alert starts with; the loop appends the error.
#[derive(Debug)]
pub enum Effect {
    /// Activate the cron scheduler of the app, first run after this many
    /// seconds from now.
    ScheduleCron(i64, u64),
    /// Deactivate the cron scheduler of the app and forget its next run.
    DeactivateCron(i64),
    /// Make sure the app has a scrollback.
    EnsureScrollback(i64),
    /// Start the app's process with this launch if it is stopped or
    /// crashed (creating it if need be), its crash count reset, then make
    /// sure it has a scrollback; the launch is remembered as the current
    /// run's.
    StartIfIdle(i64, Launch, String),
    /// Start the app's process with this launch whatever its state, its
    /// crash count reset, then make sure it has a scrollback; the launch is
    /// remembered.
    StartNow(i64, Launch, String),
    /// Restart the app's process with this launch (creating it if need
    /// be); the launch is remembered.
    Restart(i64, Launch, String),
    /// Stop the app's process, if it has one.
    Stop(i64, String),
    /// Stop the app's process if it is running; errors are ignored.
    StopIfRunning(i64),
    /// Stop the app's process, if it has one; errors are ignored.
    StopQuietly(i64),
    /// Count one more cron run and write its separator into the output.
    MarkCronRun(i64),
    /// Clear the app's output.
    ClearScrollback(i64),
    /// Drop the app's process and output.
    ForgetProcess(i64),
    /// Delete the app from the database; on success drop it from the list
    /// and keep the selection on the list.
    DeleteAppRecord(i64, String),
    /// Show the template value modal for the app (for a restart or not).
    ShowModal(i64, bool),
    /// Report this alert.
    Alert(String),
    /// Go on only where Ghostty is on `PATH`; else report that it is not
    /// and skip the steps that follow.
    RequireGhostty,
    /// Open the app in a Ghostty session (working directory, command) and
    /// mark its process attached.
    SpawnGhostty(i64, String, String, String),
    /// Open the form for a new app.
    OpenNewAppForm,
    /// Open the form on the app.
    OpenEditAppForm(i64),
    /// Start the mask's proxy.
    ActivateMask(i64),
    /// Shut the mask's proxy down, if it runs.
    ShutdownProxy(i64),
    /// Mark the mask inactive and drop its log.
    MarkMaskInactive(i64),
    /// Drop the mask's status and log.
    ForgetMask(i64),
    /// Delete the mask from the database; on success drop it from the list
    /// and keep the selection on the list.
    DeleteMaskRecord(i64, String),
    /// Open the form for a new mask.
    OpenNewMaskForm,
    /// Open the form on the mask.
    OpenEditMaskForm(i64),
}

/// A launch as plain values: working directory, command, env vars.
pub type LaunchView = (Seq<char>, Seq<char>, Seq<char>);

/// A step as plain values.
pub ghost enum EffectView {
    ScheduleCron(i64, u64),
    DeactivateCron(i64),
    EnsureScrollback(i64),
    StartIfIdle(i64, LaunchView, Seq<char>),
    StartNow(i64, LaunchView, Seq<char>),
    Restart(i64, LaunchView, Seq<char>),
    Stop(i64, Seq<char>),
    StopIfRunning(i64),
    StopQuietly(i64),
    MarkCronRun(i64),
    ClearScrollback(i64),
    ForgetProcess(i64),
    DeleteAppRecord(i64, Seq<char>),
    ShowModal(i64, bool),
    Alert(Seq<char>),
    RequireGhostty,
    SpawnGhostty(i64, Seq<char>, Seq<char>, Seq<char>),
    OpenNewAppForm,
    OpenEditAppForm(i64),
    ActivateMask(i64),
    ShutdownProxy(i64),
    MarkMaskInactive(i64),
    ForgetMask(i64),
    DeleteMaskRecord(i64, Seq<char>),
    OpenNewMaskForm,
    OpenEditMaskForm(i64),
}

pub open spec fn effect_view(e: Effect) -> EffectView {
    match e {
        Effect::ScheduleCron(i, s) => EffectView::ScheduleCron(i, s),
        Effect::DeactivateCron(i) => EffectView::DeactivateCron(i),
        Effect::EnsureScrollback(i) => EffectView::EnsureScrollback(i),
        Effect::StartIfIdle(i, l, m) => EffectView::StartIfIdle(i, launch_view(l), m@),
        Effect::StartNow(i, l, m) => EffectView::StartNow(i, launch_view(l), m@),
        Effect::Restart(i, l, m) => EffectView::Restart(i, launch_view(l), m@),
        Effect::Stop(i, m) => EffectView::Stop(i, m@),
        Effect::StopIfRunning(i) => EffectView::StopIfRunning(i),
        Effect::StopQuietly(i) => EffectView::StopQuietly(i),
        Effect::MarkCronRun(i) => EffectView::MarkCronRun(i),
        Effect::ClearScrollback(i) => EffectView::ClearScrollback(i),
        Effect::ForgetProcess(i) => EffectView::ForgetProcess(i),
        Effect::DeleteAppRecord(i, m) => EffectView::DeleteAppRecord(i, m@),
        Effect::ShowModal(i, r) => EffectView::ShowModal(i, r),
        Effect::Alert(m) => EffectView::Alert(m@),
        Effect::RequireGhostty => EffectView::RequireGhostty,
        Effect::SpawnGhostty(i, d, c, m) => EffectView::SpawnGhostty(i, d@, c@, m@),
        Effect::OpenNewAppForm => EffectView::OpenNewAppForm,
        Effect::OpenEditAppForm(i) => EffectView::OpenEditAppForm(i),
        Effect::ActivateMask(i) => EffectView::ActivateMask(i),
        Effect::ShutdownProxy(i) => EffectView::ShutdownProxy(i),
        Effect::MarkMaskInactive(i) => EffectView::MarkMaskInactive(i),
        Effect::ForgetMask(i) => EffectView::ForgetMask(i),
        Effect::DeleteMaskRecord(i, m) => EffectView::DeleteMaskRecord(i, m@),
        Effect::OpenNewMaskForm => EffectView::OpenNewMaskForm,
        Effect::OpenEditMaskForm(i) => EffectView::OpenEditMaskForm(i),
    }
}

pub open spec fn effects_view(es: Seq<Effect>) -> Seq<EffectView> {
    es.map_values(|e: Effect| effect_view(e))
}

/// The selected app as the decisions read it: its configuration, whether
/// its process is running, and the launch of its current (or last) run.
pub struct SelectedApp {
    pub app: AppConfig,
    pub running: bool,
    pub last_launch: Option<Launch>,
}

/// The selected mask: its id and name.
pub struct SelectedMask {
    pub id: i64,
    pub name: String,
}

/// What the action decisions read: the selected app and mask, if any.
pub struct AppModel {
    pub app: Option<SelectedApp>,
    pub mask: Option<SelectedMask>,
}

/// The launch an app runs with when nothing else is given: its template
/// variables' defaults filled in where they all resolve, else as stored.
pub open spec fn default_launch(app: AppConfig) -> LaunchView {
    if app.template_vars.len() > 0 {
        match defaults_resolved(app) {
            Ok(vals) => launch_spec(app, vals),
            Err(_) => plain_launch(app),
        }
    } else {
        plain_launch(app)
    }
}

/// The launch of a rerun: the current run's values where there is one,
/// else the defaults.
pub open spec fn run_launch(app: AppConfig, last: Option<Launch>) -> LaunchView {
    match last {
        Some(l) => launch_view(l),
        None => default_launch(app),
    }
}

/// `prefix`, the app's name, and ": ".
pub open spec fn fail_text(prefix: Seq<char>, name: Seq<char>) -> Seq<char> {
    prefix + name + ": "@
}

/// The steps of the start key for an app.
pub open spec fn start_effects(app: AppConfig) -> Seq<EffectView> {
    match start_spec(app) {
        StartPlanView::Schedule(secs) => seq![
            EffectView::ScheduleCron(app.id, secs),
            EffectView::EnsureScrollback(app.id),
        ],
        StartPlanView::AskValues => seq![EffectView::ShowModal(app.id, false)],
        StartPlanView::Alert(m) => seq![EffectView::Alert(m)],
        StartPlanView::Start(l) => seq![
            EffectView::StartIfIdle(app.id, l, fail_text("Failed to start "@, app.name@)),
        ],
    }
}

/// The steps of the stop key: a cron job's scheduler is deactivated and a
/// run under way stopped; any other app's process is stopped, a failure
/// reported.
pub open spec fn stop_effects(app: AppConfig) -> Seq<EffectView> {
    if app.interval_seconds is Some {
        seq![EffectView::DeactivateCron(app.id), EffectView::StopIfRunning(app.id)]
    } else {
        seq![EffectView::Stop(app.id, fail_text("Failed to stop "@, app.name@))]
    }
}

/// The steps of the restart key: a cron job runs now (unless a run is
/// under way) and its timer starts again; any other app restarts with its
/// current run's values and its output is cleared.
pub open spec fn restart_effects(sel: SelectedApp) -> Seq<EffectView> {
    let app = sel.app;
    let l = run_launch(app, sel.last_launch);
    if app.interval_seconds is Some {
        if sel.running {
            seq![EffectView::ScheduleCron(app.id, interval_secs(app))]
        } else {
            seq![
                EffectView::MarkCronRun(app.id),
                EffectView::StartNow(app.id, l, fail_text("Failed to run "@, app.name@)),
                EffectView::ScheduleCron(app.id, interval_secs(app)),
            ]
        }
    } else {
        seq![
            EffectView::Restart(app.id, l, fail_text("Failed to restart "@, app.name@)),
            EffectView::ClearScrollback(app.id),
        ]
    }
}

/// The steps of the delete key: stop, forget the process and output, then
/// delete the record.
pub open spec fn delete_effects(app: AppConfig) -> Seq<EffectView> {
    seq![
        EffectView::StopQuietly(app.id),
        EffectView::ForgetProcess(app.id),
        EffectView::DeleteAppRecord(app.id, fail_text("Failed to delete "@, app.name@)),
    ]
}

/// The steps of the attach key: only with Ghostty on `PATH`, stop a run
/// under way and open the app in Ghostty.
pub open spec fn attach_effects(app: AppConfig) -> Seq<EffectView> {
    seq![
        EffectView::RequireGhostty,
        EffectView::StopIfRunning(app.id),
        EffectView::SpawnGhostty(
            app.id,
            app.working_dir@,
            app.command@,
            fail_text("Failed to attach "@, app.name@),
        ),
    ]
}

/// The steps of the start-with-options key: the modal where the app has
/// template variables, else a plain start.
pub open spec fn start_options_effects(app: AppConfig) -> Seq<EffectView> {
    if app.template_vars.len() > 0 {
        seq![EffectView::ShowModal(app.id, false)]
    } else {
        seq![
            EffectView::StartIfIdle(app.id, plain_launch(app), fail_text("Failed to start "@, app.name@)),
        ]
    }
}

/// The steps of the restart-with-options key: the modal (for a restart)
/// where the app has template variables, else stop a run under way and
/// start as stored.
pub open spec fn restart_options_effects(app: AppConfig) -> Seq<EffectView> {
    if app.template_vars.len() > 0 {
        seq![EffectView::ShowModal(app.id, true)]
    } else {
        seq![
            EffectView::StopIfRunning(app.id),
            EffectView::StartNow(app.id, plain_launch(app), fail_text("Failed to start "@, app.name@)),
        ]
    }
}

/// The steps of an action that is not navigation. Actions that need a
/// selected app or mask do nothing without one.
pub open spec fn action_effects(app: Option<SelectedApp>, mask: Option<(i64, Seq<char>)>, action: Action) -> Seq<
    EffectView,
> {
    match action {
        Action::StartApp => match app {
            Some(s) => start_effects(s.app),
            None => Seq::empty(),
        },
        Action::StopApp => match app {
            Some(s) => stop_effects(s.app),
            None => Seq::empty(),
        },
        Action::RestartApp => match app {
            Some(s) => restart_effects(s),
            None => Seq::empty(),
        },
        Action::DeleteApp => match app {
            Some(s) => delete_effects(s.app),
            None => Seq::empty(),
        },
        Action::AttachApp => match app {
            Some(s) => attach_effects(s.app),
            None => Seq::empty(),
        },
        Action::NewApp => seq![EffectView::OpenNewAppForm],
        Action::EditApp => match app {
            Some(s) => seq![EffectView::OpenEditAppForm(s.app.id)],
            None => Seq::empty(),
        },
        Action::StartAppWithOptions => match app {
            Some(s) => start_options_effects(s.app),
            None => Seq::empty(),
        },
        Action::RestartAppWithOptions => match app {
            Some(s) => restart_options_effects(s.app),
            None => Seq::empty(),
        },
        Action::ActivateMask => match mask {
            Some(m) => seq![EffectView::ActivateMask(m.0)],
            None => Seq::empty(),
        },
        Action::DeactivateMask => match mask {
            Some(m) => seq![EffectView::ShutdownProxy(m.0), EffectView::MarkMaskInactive(m.0)],
            None => Seq::empty(),
        },
        Action::NewMask => seq![EffectView::OpenNewMaskForm],
        Action::EditMask => match mask {
            Some(m) => seq![EffectView::OpenEditMaskForm(m.0)],
            None => Seq::empty(),
        },
        Action::DeleteMask => match mask {
            Some(m) => seq![
                EffectView::ShutdownProxy(m.0),
                EffectView::ForgetMask(m.0),
                EffectView::DeleteMaskRecord(m.0, fail_text("Failed to delete mask "@, m.1)),
            ],
            None => Seq::empty(),
        },
        _ => Seq::empty(),
    }
}

pub open spec fn mask_view(m: Option<SelectedMask>) -> Option<(i64, Seq<char>)> {
    match m {
        Some(s) => Some((s.id, s.name@)),
        None => None,
    }
}

fn fail_message(prefix: &str, name: &str) -> (s: String)
    ensures
        s@ == fail_text(prefix@, name@),
{
    let mut s = to_owned_string(prefix);
    push_str(&mut s, name);
    push_str(&mut s, ": ");
    s
}

fn copy_launch(l: &Launch) -> (r: Launch)
    ensures
        launch_view(r) == launch_view(*l),
{
    Launch {
        working_dir: l.working_dir.clone(),
        command: l.command.clone(),
        env_vars: l.env_vars.clone(),
    }
}

/// The launch an app runs with when nothing else is given.
pub fn default_launch_of(app: &AppConfig) -> (l: Launch)
    ensures
        launch_view(l) == default_launch(*app),
{
    if app.has_template_vars() {
        let empty = map_new();
        assert(string_map(empty) =~= Map::<Seq<char>, Seq<char>>::empty());
        match resolve_values(app.template_vars.as_slice(), &empty) {
            Ok(values) => launch_with(app, &values),
            Err(_) => plain(app),
        }
    } else {
        plain(app)
    }
}

/// The launch of a rerun: the current run's, else the defaults.
pub fn run_launch_of(app: &AppConfig, last: &Option<Launch>) -> (l: Launch)
    ensures
        launch_view(l) == run_launch(*app, *last),
{
    match last {
        Some(l) => copy_launch(l),
        None => default_launch_of(app),
    }
}

fn start_effects_of(app: &AppConfig) -> (r: Vec<Effect>)
    ensures
        effects_view(r@) == start_effects(*app),
{
    let mut r: Vec<Effect> = Vec::new();
    let p = plan_start(app);
    match p {
        StartPlan::Schedule(secs) => {
            r.push(Effect::ScheduleCron(app.id, secs));
            r.push(Effect::EnsureScrollback(app.id));
        },
        StartPlan::AskValues => {
            r.push(Effect::ShowModal(app.id, false));
        },
        StartPlan::Alert(m) => {
            r.push(Effect::Alert(m));
        },
        StartPlan::Start(l) => {
            r.push(Effect::StartIfIdle(app.id, l, fail_message("Failed to start ", app.name.as_str())));
        },
    }
    assert(effects_view(r@) =~= start_effects(*app));
    r
}

fn restart_effects_of(sel: &SelectedApp) -> (r: Vec<Effect>)
    ensures
        effects_view(r@) == restart_effects(*sel),
{
    let app = &sel.app;
    let mut r: Vec<Effect> = Vec::new();
    if app.is_cron() {
        if !sel.running {
            r.push(Effect::MarkCronRun(app.id));
            let l = run_launch_of(app, &sel.last_launch);
            r.push(Effect::StartNow(app.id, l, fail_message("Failed to run ", app.name.as_str())));
        }
        r.push(Effect::ScheduleCron(app.id, interval_of(app)));
    } else {
        let l = run_launch_of(app, &sel.last_launch);
        r.push(Effect::Restart(app.id, l, fail_message("Failed to restart ", app.name.as_str())));
        r.push(Effect::ClearScrollback(app.id));
    }
    assert(effects_view(r@) =~= restart_effects(*sel));
    r
}

/// The steps an action that is not navigation asks of the event loop.
pub fn plan_action(model: &AppModel, action: Action) -> (r: Vec<Effect>)
    ensures
        effects_view(r@) == action_effects(model.app, mask_view(model.mask), action),
{
    let mut r: Vec<Effect> = Vec::new();
    match action {
        Action::StartApp => {
            if let Some(s) = &model.app {
                return start_effects_of(&s.app);
            }
        },
        Action::StopApp => {
            if let Some(s) = &model.app {
                let app = &s.app;
                if app.is_cron() {
                    r.push(Effect::DeactivateCron(app.id));
                    r.push(Effect::StopIfRunning(app.id));
                } else {
                    r.push(Effect::Stop(app.id, fail_message("Failed to stop ", app.name.as_str())));
                }
            }
        },
        Action::RestartApp => {
            if let Some(s) = &model.app {
                return restart_effects_of(s);
            }
        },
        Action::DeleteApp => {
            if let Some(s) = &model.app {
                let app = &s.app;
                r.push(Effect::StopQuietly(app.id));
                r.push(Effect::ForgetProcess(app.id));
                r.push(Effect::DeleteAppRecord(app.id, fail_message("Failed to delete ", app.name.as_str())));
            }
        },
        Action::AttachApp => {
            if let Some(s) = &model.app {
                let app = &s.app;
                r.push(Effect::RequireGhostty);
                r.push(Effect::StopIfRunning(app.id));
                r.push(
                    Effect::SpawnGhostty(
                        app.id,
                        app.working_dir.clone(),
                        app.command.clone(),
                        fail_message("Failed to attach ", app.name.as_str()),
                    ),
                );
            }
        },
        Action::NewApp => {
            r.push(Effect::OpenNewAppForm);
        },
        Action::EditApp => {
            if let Some(s) = &model.app {
                r.push(Effect::OpenEditAppForm(s.app.id));
            }
        },
        Action::StartAppWithOptions => {
            if let Some(s) = &model.app {
                let app = &s.app;
                if app.has_template_vars() {
                    r.push(Effect::ShowModal(app.id, false));
                } else {
                    r.push(Effect::StartIfIdle(app.id, plain(app), fail_message("Failed to start ", app.name.as_str())));
                }
            }
        },
        Action::RestartAppWithOptions => {
            if let Some(s) = &model.app {
                let app = &s.app;
                if app.has_template_vars() {
                    r.push(Effect::ShowModal(app.id, true));
                } else {
                    r.push(Effect::StopIfRunning(app.id));
                    r.push(Effect::StartNow(app.id, plain(app), fail_message("Failed to start ", app.name.as_str())));
                }
            }
        },
        Action::ActivateMask => {
            if let Some(m) = &model.mask {
                r.push(Effect::ActivateMask(m.id));
            }
        },
        Action::DeactivateMask => {
            if let Some(m) = &model.mask {
                r.push(Effect::ShutdownProxy(m.id));
                r.push(Effect::MarkMaskInactive(m.id));
            }
        },
        Action::NewMask => {
            r.push(Effect::OpenNewMaskForm);
        },
        Action::EditMask => {
            if let Some(m) = &model.mask {
                r.push(Effect::OpenEditMaskForm(m.id));
            }
        },
        Action::DeleteMask => {
            if let Some(m) = &model.mask {
                r.push(Effect::ShutdownProxy(m.id));
                r.push(Effect::ForgetMask(m.id));
                r.push(Effect::DeleteMaskRecord(m.id, fail_message("Failed to delete mask ", m.name.as_str())));
            }
        },
        _ => {},
    }
    assert(effects_view(r@) =~= action_effects(model.app, mask_view(model.mask), action));
    r
}

// ---------------------------------------------------------------------------
// The tick.
// ---------------------------------------------------------------------------

/// Whether a cron job runs on this tick: its scheduler is active, its next
/// run time (milliseconds on the loop's clock) has come, and no run is
/// under way.
pub fn cron_due(active: bool, next_fire: Option<u64>, now: u64, running: bool) -> (b: bool)
    ensures
        b == (active && next_fire is Some && now >= next_fire->0 && !running),
{
    match next_fire {
        Some(t) => active && now >= t && !running,
        None => false,
    }
}

/// What a cron job's run on a tick comes to: count the run and write its
/// separator, start it with its current run's values (or its defaults),
/// and start the timer again.
pub open spec fn cron_fire_effects(app: AppConfig, last: Option<Launch>) -> Seq<EffectView> {
    seq![
        EffectView::MarkCronRun(app.id),
        EffectView::StartNow(
            app.id,
            run_launch(app, last),
            "Cron job "@ + signed_decimal(app.id as int) + " failed to start: "@,
        ),
        EffectView::ScheduleCron(app.id, interval_secs(app)),
    ]
}

/// The steps of a cron job's run on a tick.
pub fn cron_fire(app: &AppConfig, last: &Option<Launch>) -> (r: Vec<Effect>)
    ensures
        effects_view(r@) == cron_fire_effects(*app, *last),
{
    let mut r: Vec<Effect> = Vec::new();
    r.push(Effect::MarkCronRun(app.id));
    let l = run_launch_of(app, last);
    let mut m = to_owned_string("Cron job ");
    let id = i64_to_string(app.id);
    push_str(&mut m, id.as_str());
    push_str(&mut m, " failed to start: ");
    r.push(Effect::StartNow(app.id, l, m));
    r.push(Effect::ScheduleCron(app.id, interval_of(app)));
    assert(effects_view(r@) =~= cron_fire_effects(*app, *last));
    r
}

/// What follows when an app's Ghostty session has ended: an app that
/// starts automatically runs again under supervision, with its current
/// run's values (or its defaults); any other stays stopped.
pub open spec fn session_exit_launch(app: AppConfig, last: Option<Launch>) -> Option<LaunchView> {
    if app.auto_start {
        Some(run_launch(app, last))
    } else {
        None
    }
}

/// The launch an app restarts with after its Ghostty session ended, if
/// any.
pub fn after_session_exit(app: &AppConfig, last: &Option<Launch>) -> (l: Option<Launch>)
    ensures
        match (l, session_exit_launch(*app, *last)) {
            (Some(x), Some(y)) => launch_view(x) == y,
            (None, None) => true,
            _ => false,
        },
{
    if app.auto_start {
        Some(run_launch_of(app, last))
    } else {
        None
    }
}

} // verus!
