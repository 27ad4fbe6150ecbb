//! Launch profiles: how one model is served by one runtime, and the option settings they hold.
use vstd::prelude::*;

use crate::error::{opt_text, AppError, AppResult, ErrorCode};
use crate::performance::sweep::sweep_in_progress_error;
use crate::text::{chars_equal, chars_of};
use crate::text_map::TextMap;

verus! {

pub const PROFILE_SCHEMA_VERSION: u32 = 1;

/// How a profile sets one runtime option.
#[derive(Debug, Clone, PartialEq, Eq)]
pub enum ProfileOptionSetting {
    /// Left to the runtime's own default.
    Default,
    /// The runtime decides, through its `auto` value.
    Auto,
    /// An explicit value.
    Custom { value: String },
}

/// A setting as plain values.
pub enum SettingModel {
    Default,
    Auto,
    Custom(Seq<char>),
}

impl View for ProfileOptionSetting {
    type V = SettingModel;

    open spec fn view(&self) -> SettingModel {
        match self {
            ProfileOptionSetting::Default => SettingModel::Default,
            ProfileOptionSetting::Auto => SettingModel::Auto,
            ProfileOptionSetting::Custom { value } => SettingModel::Custom(value@),
        }
    }
}

/// An explicit value.
pub fn custom(value: &str) -> (s: ProfileOptionSetting)
    ensures
        s@ == SettingModel::Custom(value@),
{
    ProfileOptionSetting::Custom { value: value.to_string() }
}

/// Two option maps hold the same settings under the same keys, in the same order.
pub open spec fn same_settings(a: TextMap<ProfileOptionSetting>, b: TextMap<ProfileOptionSetting>) -> bool {
    &&& a.entries@.len() == b.entries@.len()
    &&& forall|i: int|
        0 <= i < a.entries@.len() ==> #[trigger] a.entries@[i].0@ == b.entries@[i].0@
            && a.entries@[i].1@ == b.entries@[i].1@
}

fn clone_setting(s: &ProfileOptionSetting) -> (r: ProfileOptionSetting)
    ensures
        r@ == s@,
{
    match s {
        ProfileOptionSetting::Default => ProfileOptionSetting::Default,
        ProfileOptionSetting::Auto => ProfileOptionSetting::Auto,
        ProfileOptionSetting::Custom { value } => ProfileOptionSetting::Custom { value: value.clone() },
    }
}

/// A copy of the settings.
pub fn clone_settings(m: &TextMap<ProfileOptionSetting>) -> (r: TextMap<ProfileOptionSetting>)
    requires
        m.wf(),
    ensures
        r.wf(),
        same_settings(r, *m),
{
    let mut entries: Vec<(String, ProfileOptionSetting)> = Vec::new();
    let mut i: usize = 0;
    while i < m.entries.len()
        invariant
            i <= m.entries@.len(),
            entries@.len() == i,
            forall|j: int|
                0 <= j < i ==> #[trigger] entries@[j].0@ == m.entries@[j].0@ && entries@[j].1@
                    == m.entries@[j].1@,
        decreases m.entries.len() - i,
    {
        entries.push((m.entries[i].0.clone(), clone_setting(&m.entries[i].1)));
        i += 1;
    }
    let r = TextMap { entries };
    assert(crate::text_map::keys_sorted(r.entries@)) by {
        assert forall|a: int, b: int| 0 <= a < b < r.entries@.len() implies crate::text_map::text_lt(
            #[trigger] r.entries@[a].0@,
            #[trigger] r.entries@[b].0@,
        ) by {
            assert(r.entries@[a].0@ == m.entries@[a].0@);
            assert(r.entries@[b].0@ == m.entries@[b].0@);
        }
    }
    r
}

/// What the user edits in a profile.
#[derive(Debug, Clone)]
pub struct ProfileInput {
    pub name: String,
    pub description: Option<String>,
    pub runtime_id: String,
    pub model_id: String,
    pub projector_path: Option<String>,
    pub host: String,
    pub port: u16,
    pub auto_select_port: bool,
    pub options: TextMap<ProfileOptionSetting>,
    pub environment: TextMap<String>,
    pub additional_arguments: Vec<String>,
}

/// A stored launch profile.
#[derive(Debug, Clone)]
pub struct LaunchProfile {
    pub schema_version: u32,
    pub id: String,
    pub name: String,
    pub description: Option<String>,
    pub runtime_id: String,
    pub runtime_label: String,
    pub model_id: String,
    pub model_name: String,
    pub model_path: String,
    pub projector_path: Option<String>,
    pub host: String,
    pub port: u16,
    pub auto_select_port: bool,
    pub options: TextMap<ProfileOptionSetting>,
    pub environment: TextMap<String>,
    pub additional_arguments: Vec<String>,
    pub created_at: String,
    pub updated_at: String,
}

impl LaunchProfile {
    /// The editable part of the profile.
    pub fn input(&self) -> (r: ProfileInput)
        requires
            self.options.wf(),
        ensures
            r.options.wf(),
            same_settings(r.options, self.options),
            r.name@ == self.name@,
            opt_text(r.description) == opt_text(self.description),
            r.runtime_id@ == self.runtime_id@,
            r.model_id@ == self.model_id@,
            opt_text(r.projector_path) == opt_text(self.projector_path),
            r.host@ == self.host@,
            r.port == self.port,
            r.auto_select_port == self.auto_select_port,
    {
        ProfileInput {
            name: self.name.clone(),
            description: match &self.description {
                Some(d) => Some(d.clone()),
                None => None,
            },
            runtime_id: self.runtime_id.clone(),
            model_id: self.model_id.clone(),
            projector_path: match &self.projector_path {
                Some(p) => Some(p.clone()),
                None => None,
            },
            host: self.host.clone(),
            port: self.port,
            auto_select_port: self.auto_select_port,
            options: clone_settings(&self.options),
            environment: self.environment.clone(),
            additional_arguments: self.additional_arguments.clone(),
        }
    }
}

/// Whether the running server serves `id`.
pub open spec fn serving(server_active: bool, active_id: Option<&str>, id: Seq<char>) -> bool {
    server_active && (active_id matches Some(a) && a@ == id)
}

pub(crate) fn same_text(a: Option<&str>, b: &str) -> (r: bool)
    ensures
        r == (a matches Some(x) && x@ == b@),
{
    match a {
        Some(x) => chars_equal(chars_of(x).as_slice(), chars_of(b).as_slice()),
        None => false,
    }
}

/// A profile cannot be deleted while a performance sweep runs, nor while the active server runs
/// it.
pub fn check_profile_deletable(
    sweep_running: bool,
    server_active: bool,
    active_profile: Option<&str>,
    id: &str,
) -> (r: AppResult<()>)
    ensures
        r is Err <==> (sweep_running || serving(server_active, active_profile, id@)),
        r matches Err(e) ==> if sweep_running {
            e.code == ErrorCode::BenchmarkInProgress
        } else {
            e.code == ErrorCode::ServerAlreadyRunning && e.message@
                == "The active server profile cannot be deleted."@ && opt_text(e.hint) == Some(
                "Stop llama-server, then delete the profile."@,
            )
        },
{
    if sweep_running {
        return Err(sweep_in_progress_error());
    }
    if server_active && same_text(active_profile, id) {
        return Err(
            AppError::new(
                ErrorCode::ServerAlreadyRunning,
                "The active server profile cannot be deleted.",
            ).with_hint("Stop llama-server, then delete the profile."),
        );
    }
    Ok(())
}

/// A runtime cannot be deleted while the active server runs it.
pub fn check_runtime_deletable(server_active: bool, active_runtime: Option<&str>, id: &str) -> (r:
    AppResult<()>)
    ensures
        r is Err <==> serving(server_active, active_runtime, id@),
        r matches Err(e) ==> e.code == ErrorCode::ServerAlreadyRunning && e.message@
            == "The runtime used by the active server cannot be deleted."@ && opt_text(e.hint)
            == Some("Stop llama-server, then delete the runtime."@),
{
    if server_active && same_text(active_runtime, id) {
        return Err(
            AppError::new(
                ErrorCode::ServerAlreadyRunning,
                "The runtime used by the active server cannot be deleted.",
            ).with_hint("Stop llama-server, then delete the runtime."),
        );
    }
    Ok(())
}

} // verus!
