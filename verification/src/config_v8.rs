//! The settings of the application, and the step from their previous version.

use vstd::prelude::*;
use vstd::string::*;

use crate::text::same_text;

verus! {

/// Which keys send a message.
#[derive(Debug, Clone, Copy, PartialEq, Eq, Structural)]
pub enum SendMessageShortcut {
    ModifierEnter,
    Enter,
}

impl Default for SendMessageShortcut {
    fn default() -> (s: Self)
        ensures
            s == SendMessageShortcut::ModifierEnter,
    {
        SendMessageShortcut::ModifierEnter
    }
}

/// Settings that are carried along as they are, each as it is stored. An absent
/// one has its own default.
#[derive(Debug, PartialEq, Eq)]
pub struct CarriedSettings {
    /// Absent: the system's.
    pub theme: Option<String>,
    /// Absent: that of the default agent.
    pub executor_profile: Option<String>,
    pub notifications: Option<String>,
    pub editor: Option<String>,
    pub github: Option<String>,
    pub language: Option<String>,
    pub showcases: Option<String>,
}

impl Default for CarriedSettings {
    fn default() -> (c: Self)
        ensures
            c.theme is None,
            c.executor_profile is None,
            c.notifications is None,
            c.editor is None,
            c.github is None,
            c.language is None,
            c.showcases is None,
    {
        CarriedSettings {
            theme: None,
            executor_profile: None,
            notifications: None,
            editor: None,
            github: None,
            language: None,
            showcases: None,
        }
    }
}

/// The settings of the application.
#[derive(Debug, PartialEq, Eq)]
pub struct Config {
    pub config_version: String,
    pub carried: CarriedSettings,
    pub disclaimer_acknowledged: bool,
    pub onboarding_acknowledged: bool,
    pub remote_onboarding_acknowledged: bool,
    pub analytics_enabled: bool,
    pub workspace_dir: Option<String>,
    pub last_app_version: Option<String>,
    pub show_release_notes: bool,
    pub git_branch_prefix: String,
    pub pr_auto_description_enabled: bool,
    pub pr_auto_description_prompt: Option<String>,
    pub commit_reminder_enabled: bool,
    pub commit_reminder_prompt: Option<String>,
    pub send_message_shortcut: SendMessageShortcut,
    pub relay_enabled: bool,
    pub host_nickname: Option<String>,
    /// Whether a workspace is archived once its work is merged.
    pub auto_archive_on_merge: bool,
}

/// The settings in their previous version.
#[derive(Debug)]
pub struct PreviousConfig {
    pub carried: CarriedSettings,
    pub disclaimer_acknowledged: bool,
    pub onboarding_acknowledged: bool,
    /// Absent where the user was never asked.
    pub analytics_enabled: Option<bool>,
    pub workspace_dir: Option<String>,
    pub last_app_version: Option<String>,
    pub show_release_notes: bool,
    pub git_branch_prefix: String,
}

pub fn default_git_branch_prefix() -> (p: String)
    ensures
        p@ == "bc"@,
{
    "bc".to_owned()
}

pub fn default_pr_auto_description_enabled() -> (b: bool)
    ensures
        b,
{
    true
}

pub fn default_commit_reminder_enabled() -> (b: bool)
    ensures
        b,
{
    true
}

pub fn default_relay_enabled() -> (b: bool)
    ensures
        b,
{
    true
}

impl Config {
    /// Whether what this version added has its default.
    pub open spec fn additions_default(self) -> bool {
        &&& self.config_version@ == "v8"@
        &&& !self.remote_onboarding_acknowledged
        &&& self.pr_auto_description_enabled
        &&& self.pr_auto_description_prompt is None
        &&& self.commit_reminder_enabled
        &&& self.commit_reminder_prompt is None
        &&& self.send_message_shortcut == SendMessageShortcut::ModifierEnter
        &&& self.relay_enabled
        &&& self.host_nickname is None
        &&& !self.auto_archive_on_merge
    }

    /// Whether `self` is what becomes of `old`.
    pub open spec fn upgrades(self, old: PreviousConfig) -> bool {
        &&& self.additions_default()
        &&& self.carried == old.carried
        &&& self.disclaimer_acknowledged == old.disclaimer_acknowledged
        &&& self.onboarding_acknowledged == old.onboarding_acknowledged
        &&& self.analytics_enabled == (old.analytics_enabled != Some(false))
        &&& self.workspace_dir == old.workspace_dir
        &&& self.last_app_version == old.last_app_version
        &&& self.show_release_notes == old.show_release_notes
        &&& self.git_branch_prefix == old.git_branch_prefix
    }

    /// What becomes of the settings in their previous version.
    pub fn from_previous_version(old: PreviousConfig) -> (c: Config)
        ensures
            c.upgrades(old),
    {
        let analytics_enabled = match old.analytics_enabled {
            Some(enabled) => enabled,
            None => true,
        };
        Config {
            config_version: "v8".to_owned(),
            carried: old.carried,
            disclaimer_acknowledged: old.disclaimer_acknowledged,
            onboarding_acknowledged: old.onboarding_acknowledged,
            remote_onboarding_acknowledged: false,
            analytics_enabled,
            workspace_dir: old.workspace_dir,
            last_app_version: old.last_app_version,
            show_release_notes: old.show_release_notes,
            git_branch_prefix: old.git_branch_prefix,
            pr_auto_description_enabled: default_pr_auto_description_enabled(),
            pr_auto_description_prompt: None,
            commit_reminder_enabled: default_commit_reminder_enabled(),
            commit_reminder_prompt: None,
            send_message_shortcut: SendMessageShortcut::default(),
            relay_enabled: default_relay_enabled(),
            host_nickname: None,
            auto_archive_on_merge: false,
        }
    }

    /// Whether every setting has its default.
    pub open spec fn all_default(self) -> bool {
        &&& self.additions_default()
        &&& !self.disclaimer_acknowledged
        &&& !self.onboarding_acknowledged
        &&& self.analytics_enabled
        &&& self.workspace_dir is None
        &&& self.last_app_version is None
        &&& !self.show_release_notes
        &&& self.git_branch_prefix@ == "bc"@
        &&& self.carried.theme is None
        &&& self.carried.executor_profile is None
        &&& self.carried.notifications is None
        &&& self.carried.editor is None
        &&& self.carried.github is None
        &&& self.carried.language is None
        &&& self.carried.showcases is None
    }

    /// The settings that a file amounts to: as they are where they could be read
    /// in this version, else upgraded from what the file says in the previous
    /// one, else the defaults.
    pub fn from_stored(parsed: Option<Config>, old: Option<PreviousConfig>) -> (c: Config)
        ensures
            if parsed is Some && parsed->0.config_version@ == "v8"@ {
                c == parsed->0
            } else {
                match old {
                    Some(old) => c.upgrades(old),
                    None => c.all_default(),
                }
            },
    {
        if let Some(config) = parsed {
            if same_text(config.config_version.as_str(), "v8") {
                return config;
            }
        }
        match old {
            Some(old) => Config::from_previous_version(old),
            None => Config::default(),
        }
    }
}

impl Default for Config {
    fn default() -> (c: Self)
        ensures
            c.all_default(),
    {
        Config::from_previous_version(
            PreviousConfig {
                carried: CarriedSettings::default(),
                disclaimer_acknowledged: false,
                onboarding_acknowledged: false,
                analytics_enabled: None,
                workspace_dir: None,
                last_app_version: None,
                show_release_notes: false,
                git_branch_prefix: default_git_branch_prefix(),
            },
        )
    }
}

/// An upgrade changes nothing that the user has set; analytics are on unless the
/// user declined them. What is new has its default.
pub proof fn law_upgrade_keeps_what_was_set(c: Config, old: PreviousConfig)
    requires
        c.upgrades(old),
    ensures
        c.config_version@ == "v8"@,
        c.carried.theme == old.carried.theme,
        c.carried.executor_profile == old.carried.executor_profile,
        c.carried.notifications == old.carried.notifications,
        c.carried.editor == old.carried.editor,
        c.carried.github == old.carried.github,
        c.carried.language == old.carried.language,
        c.carried.showcases == old.carried.showcases,
        c.disclaimer_acknowledged == old.disclaimer_acknowledged,
        c.onboarding_acknowledged == old.onboarding_acknowledged,
        c.workspace_dir == old.workspace_dir,
        c.last_app_version == old.last_app_version,
        c.show_release_notes == old.show_release_notes,
        c.git_branch_prefix == old.git_branch_prefix,
        old.analytics_enabled is None ==> c.analytics_enabled,
        old.analytics_enabled matches Some(on) ==> c.analytics_enabled == on,
        !c.remote_onboarding_acknowledged && !c.auto_archive_on_merge,
        c.pr_auto_description_enabled && c.commit_reminder_enabled && c.relay_enabled,
        c.pr_auto_description_prompt is None && c.commit_reminder_prompt is None,
        c.host_nickname is None && c.send_message_shortcut is ModifierEnter,
{
    if let Some(on) = old.analytics_enabled {
        assert(on || old.analytics_enabled == Some(false));
    }
}

/// The defaults are those of a user who has set nothing: an upgrade from there leads
/// to them.
pub proof fn law_defaults_are_an_upgrade_from_nothing(c: Config, old: PreviousConfig)
    requires
        c.upgrades(old),
        old.carried.theme is None && old.carried.executor_profile is None
            && old.carried.notifications is None && old.carried.editor is None
            && old.carried.github is None && old.carried.language is None
            && old.carried.showcases is None,
        !old.disclaimer_acknowledged && !old.onboarding_acknowledged && !old.show_release_notes,
        old.analytics_enabled is None && old.workspace_dir is None && old.last_app_version is None,
        old.git_branch_prefix@ == "bc"@,
    ensures
        c.all_default(),
{
}

} // verus!
