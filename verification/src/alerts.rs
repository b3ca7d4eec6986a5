//! Runtime alert logic — monitors apps for exceeding max runtime.

use std::time::Duration;
use vstd::prelude::*;

use crate::clock::{as_nanos, duration_from_nanos, duration_nanos, elapsed, max_duration_nanos, whole_secs};
use crate::db::models::AppConfig;
use crate::process::ProcessState;
use crate::text::{decimal, push_char, push_decimal, push_str, to_owned_string};

verus! {

#[derive(Debug)]
pub struct RuntimeAlert {
    pub app_id: i64,
    pub app_name: String,
    pub exceeded_by: Duration,
}

/// An alert as plain values: app id, app name, and excess in nanoseconds.
pub open spec fn alert_view(a: RuntimeAlert) -> (i64, Seq<char>, nat) {
    (a.app_id, a.app_name@, duration_nanos(a.exceeded_by))
}

/// The runtime threshold of an app in seconds: its own `max_runtime_secs`
/// when set (read as unsigned), else the global limit.
pub open spec fn threshold_secs(app: AppConfig, global_max_secs: u64) -> u64 {
    match app.max_runtime_secs {
        Some(m) => m as u64,
        None => global_max_secs,
    }
}

/// The alert for an app that has been running for `elapsed` nanoseconds:
/// one exactly when the elapsed time exceeds the threshold, carrying the
/// excess.
pub open spec fn alert_for(app: AppConfig, elapsed: nat, global_max_secs: u64) -> Option<
    (i64, Seq<char>, nat),
> {
    let t = threshold_secs(app, global_max_secs) as nat * 1_000_000_000;
    if elapsed > t {
        Some((app.id, app.name@, (elapsed - t) as nat))
    } else {
        None
    }
}

/// The state recorded for an app id: the first entry with that id.
pub open spec fn state_of<'a>(states: Seq<(i64, &'a ProcessState)>, id: i64) -> Option<
    &'a ProcessState,
>
    decreases states.len(),
{
    if states.len() == 0 {
        None
    } else if states[0].0 == id {
        Some(states[0].1)
    } else {
        state_of(states.drop_first(), id)
    }
}

/// The alerts for the apps, in app order, when app `k` (if running) has
/// been running for `el[k]` nanoseconds.
pub open spec fn alerts_spec<'a>(
    apps: Seq<AppConfig>,
    states: Seq<(i64, &'a ProcessState)>,
    global_max_secs: u64,
    el: Seq<nat>,
) -> Seq<(i64, Seq<char>, nat)>
    decreases apps.len(),
{
    if apps.len() == 0 {
        Seq::empty()
    } else {
        let prev = alerts_spec(apps.drop_last(), states, global_max_secs, el);
        let app = apps.last();
        match state_of(states, app.id) {
            Some(s) => if *s is Running {
                match alert_for(app, el[apps.len() - 1], global_max_secs) {
                    Some(a) => prev.push(a),
                    None => prev,
                }
            } else {
                prev
            },
            None => prev,
        }
    }
}

proof fn lemma_alerts_spec_prefix<'a>(
    apps: Seq<AppConfig>,
    states: Seq<(i64, &'a ProcessState)>,
    g: u64,
    el: Seq<nat>,
    el2: Seq<nat>,
)
    requires
        el.len() >= apps.len(),
        el2.len() >= apps.len(),
        forall|k: int| 0 <= k < apps.len() ==> el[k] == el2[k],
    ensures
        alerts_spec(apps, states, g, el) == alerts_spec(apps, states, g, el2),
    decreases apps.len(),
{
    if apps.len() > 0 {
        lemma_alerts_spec_prefix(apps.drop_last(), states, g, el, el2);
    }
}

/// A law of runtime alerts: an app that has run for `elapsed` nanoseconds
/// is flagged exactly when that exceeds its limit (its own
/// `max_runtime_secs`, read as unsigned, else the global limit), and the
/// alert carries the app's id and name and by how much the limit was
/// exceeded: the excess plus the limit is the elapsed time.
pub proof fn lemma_alert_is_excess(app: AppConfig, elapsed: nat, global_max_secs: u64)
    ensures
        ({
            let limit: nat = match app.max_runtime_secs {
                Some(m) => (m as u64) as nat,
                None => global_max_secs as nat,
            } * 1_000_000_000;
            &&& alert_for(app, elapsed, global_max_secs) is Some <==> elapsed > limit
            &&& alert_for(app, elapsed, global_max_secs) matches Some(a) ==> a.0 == app.id && a.1
                == app.name@ && a.2 + limit == elapsed
        }),
{
}

/// The alert for one app that has been running for `elapsed`.
pub fn runtime_alert(app: &AppConfig, elapsed: &Duration, global_max_secs: u64) -> (r: Option<
    RuntimeAlert,
>)
    ensures
        match alert_for(*app, duration_nanos(*elapsed), global_max_secs) {
            Some(a) => r matches Some(x) && alert_view(x) == a,
            None => r is None,
        },
        r is Some <==> duration_nanos(*elapsed) > threshold_secs(*app, global_max_secs) as nat
            * 1_000_000_000,
        r matches Some(x) ==> x.app_id == app.id && x.app_name@ == app.name@ && duration_nanos(
            x.exceeded_by,
        ) + threshold_secs(*app, global_max_secs) as nat * 1_000_000_000 == duration_nanos(
            *elapsed,
        ),
{
    let threshold: u64 = match app.max_runtime_secs {
        Some(m) => m as u64,
        None => global_max_secs,
    };
    let t: u128 = (threshold as u128) * 1_000_000_000u128;
    let e = as_nanos(elapsed);
    if e > t {
        let d = duration_from_nanos(e - t);
        Some(RuntimeAlert { app_id: app.id, app_name: app.name.clone(), exceeded_by: d })
    } else {
        None
    }
}

/// Check all running processes for runtime exceedance.
///
/// For each app:
/// - If it has `max_runtime_secs` set, use that as the threshold
/// - Otherwise, use `global_max_secs` (default: 18000 = 5 hours)
/// - If the process has been running longer than the threshold, create an alert
///
/// Returns a list of alerts for apps that have exceeded their runtime. How
/// long a process has run is read from the clock, so the result is stated
/// for the elapsed times that were read, whatever they were.
pub fn check_runtime_alerts(
    apps: &[AppConfig],
    process_states: &[(i64, &ProcessState)],
    global_max_secs: u64,
) -> (r: Vec<RuntimeAlert>)
    ensures
        exists|el: Seq<nat>|
            el.len() == apps.len() && r@.map_values(|a: RuntimeAlert| alert_view(a))
                == #[trigger] alerts_spec(apps@, process_states@, global_max_secs, el),
{
    let mut alerts: Vec<RuntimeAlert> = Vec::new();
    let ghost mut el: Seq<nat> = Seq::empty();
    let mut k: usize = 0;
    while k < apps.len()
        invariant
            k <= apps.len(),
            el.len() == k,
            alerts@.map_values(|a: RuntimeAlert| alert_view(a)) == alerts_spec(
                apps@.take(k as int),
                process_states@,
                global_max_secs,
                el,
            ),
        decreases apps.len() - k,
    {
        let app = &apps[k];
        let ghost before = alerts@;
        let mut j: usize = 0;
        assert(process_states@.skip(0) =~= process_states@);
        while j < process_states.len() && process_states[j].0 != app.id
            invariant
                j <= process_states.len(),
                state_of(process_states@, app.id) == state_of(process_states@.skip(j as int), app.id),
            decreases process_states.len() - j,
        {
            assert(process_states@.skip(j as int).drop_first() =~= process_states@.skip(j + 1));
            j = j + 1;
        }
        let ghost mut e: nat = 0;
        if j < process_states.len() {
            assert(process_states@.skip(j as int)[0] == process_states@[j as int]);
            match process_states[j].1 {
                ProcessState::Running { started_at, .. } => {
                    let d = elapsed(started_at);
                    proof {
                        e = duration_nanos(d);
                    }
                    match runtime_alert(app, &d, global_max_secs) {
                        Some(a) => alerts.push(a),
                        None => {},
                    }
                },
                _ => {},
            }
        } else {
            assert(process_states@.skip(j as int).len() == 0);
        }
        proof {
            let el2 = el.push(e);
            let ap = apps@.take(k + 1);
            assert(ap.drop_last() =~= apps@.take(k as int));
            assert(ap.last() == apps@[k as int]);
            lemma_alerts_spec_prefix(apps@.take(k as int), process_states@, global_max_secs, el, el2);
            el = el2;
            assert(alerts@.map_values(|a: RuntimeAlert| alert_view(a)) =~= alerts_spec(
                ap,
                process_states@,
                global_max_secs,
                el,
            ));
        }
        k = k + 1;
    }
    assert(apps@.take(apps.len() as int) =~= apps@);
    alerts
}

/// Human-readable rendering of a number of seconds:
/// - < 60s: "{s}s"
/// - < 3600s: "{m}m"
/// - >= 3600s: "{h}h {m}m" (omit minutes if 0)
pub open spec fn format_secs_spec(t: nat) -> Seq<char> {
    if t < 60 {
        decimal(t) + "s"@
    } else if t < 3600 {
        decimal(t / 60) + "m"@
    } else if (t % 3600) / 60 == 0 {
        decimal(t / 3600) + "h"@
    } else {
        decimal(t / 3600) + "h "@ + decimal((t % 3600) / 60) + "m"@
    }
}

/// Format a number of seconds; see [`format_secs_spec`].
pub fn format_secs(total_secs: u64) -> (s: String)
    ensures
        s@ == format_secs_spec(total_secs as nat),
{
    let mut s = String::new();
    if total_secs < 60 {
        push_decimal(&mut s, total_secs);
        push_str(&mut s, "s");
    } else if total_secs < 3600 {
        push_decimal(&mut s, total_secs / 60);
        push_str(&mut s, "m");
    } else {
        let hours = total_secs / 3600;
        let minutes = (total_secs % 3600) / 60;
        push_decimal(&mut s, hours);
        if minutes == 0 {
            push_str(&mut s, "h");
        } else {
            push_str(&mut s, "h ");
            push_decimal(&mut s, minutes);
            push_str(&mut s, "m");
        }
    }
    assert(s@ =~= format_secs_spec(total_secs as nat));
    s
}

/// Format a duration into a human-readable string; its whole seconds are
/// rendered as [`format_secs_spec`] says.
pub fn format_duration(d: Duration) -> (s: String)
    ensures
        s@ == format_secs_spec(duration_nanos(d) / 1_000_000_000),
{
    format_secs(whole_secs(&d))
}

/// The status bar text of an alert.
pub open spec fn alert_text(name: Seq<char>, excess: Seq<char>) -> Seq<char> {
    seq!['\u{23f1}', ' '] + name + ": running "@ + excess + " over limit"@
}

/// Format an alert into a display string for the status bar.
pub fn format_alert(alert: &RuntimeAlert) -> (s: String)
    ensures
        s@ == alert_text(
            alert.app_name@,
            format_secs_spec(duration_nanos(alert.exceeded_by) / 1_000_000_000),
        ),
{
    let mut s = String::new();
    push_char(&mut s, '\u{23f1}');
    push_char(&mut s, ' ');
    push_str(&mut s, alert.app_name.as_str());
    push_str(&mut s, ": running ");
    let d = format_duration(alert.exceeded_by);
    push_str(&mut s, d.as_str());
    push_str(&mut s, " over limit");
    assert(s@ =~= alert_text(
        alert.app_name@,
        format_secs_spec(duration_nanos(alert.exceeded_by) / 1_000_000_000),
    ));
    s
}

} // verus!
