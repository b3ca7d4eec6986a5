//! App and mask configuration records.

use vstd::prelude::*;

use crate::template::{any_required, has_required_variables, vars_view, TemplateVar};

verus! {

/// Represents a stored app configuration.
#[derive(Debug, Clone)]
pub struct AppConfig {
    pub id: i64,
    pub name: String,
    pub working_dir: String,
    pub command: String,
    /// JSON object text.
    pub env_vars: String,
    pub auto_start: bool,
    pub max_runtime_secs: Option<i64>,
    pub interval_seconds: Option<i64>,
    pub template_vars: Vec<TemplateVar>,
    pub created_at: String,
}

impl AppConfig {
    /// Returns true if this app is configured as a cron job (has an interval).
    pub fn is_cron(&self) -> (b: bool)
        ensures
            b == (self.interval_seconds is Some),
    {
        self.interval_seconds.is_some()
    }

    /// Returns true if this app has template variables defined.
    pub fn has_template_vars(&self) -> (b: bool)
        ensures
            b == (self.template_vars.len() > 0),
    {
        self.template_vars.len() > 0
    }

    /// Returns true if this app has required (no-default) template variables.
    pub fn has_required_template_vars(&self) -> (b: bool)
        ensures
            b == any_required(vars_view(self.template_vars@)),
    {
        has_required_variables(self.template_vars.as_slice())
    }
}

/// Data required to create or update an app configuration.
#[derive(Debug, Clone, PartialEq)]
pub struct NewApp {
    pub name: String,
    pub working_dir: String,
    pub command: String,
    pub env_vars: String,
    pub auto_start: bool,
    pub max_runtime_secs: Option<i64>,
    pub interval_seconds: Option<i64>,
    pub template_vars: Vec<TemplateVar>,
}

/// Represents a stored API mask configuration.
#[derive(Debug, Clone)]
pub struct ApiMask {
    pub id: i64,
    pub name: String,
    pub target_url: String,
    pub listen_port: u16,
    /// JSON object text: {"Header-Name": "value", ...}
    pub headers: String,
    pub auto_start: bool,
    pub created_at: String,
}

/// Data required to create or update an API mask configuration.
#[derive(Debug, Clone, PartialEq)]
pub struct NewMask {
    pub name: String,
    pub target_url: String,
    pub listen_port: u16,
    /// JSON object text.
    pub headers: String,
    pub auto_start: bool,
}

} // verus!
