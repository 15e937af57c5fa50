use bettercoding::config_v8::{
    default_commit_reminder_enabled, default_git_branch_prefix,
    default_pr_auto_description_enabled, default_relay_enabled, CarriedSettings, Config,
    PreviousConfig, SendMessageShortcut,
};

#[test]
fn default_disables_auto_archive_on_merge() {
    assert!(!Config::default().auto_archive_on_merge);
}

fn previous(analytics_enabled: Option<bool>) -> PreviousConfig {
    PreviousConfig {
        carried: CarriedSettings {
            theme: Some("DARK".to_string()),
            ..CarriedSettings::default()
        },
        disclaimer_acknowledged: true,
        onboarding_acknowledged: true,
        analytics_enabled,
        workspace_dir: Some("/w".to_string()),
        last_app_version: Some("1.0".to_string()),
        show_release_notes: true,
        git_branch_prefix: "mine".to_string(),
    }
}

#[test]
fn existing_v8_config_without_field_defaults_to_false() {
    // A file that was written before the field existed is read with the field's
    // default, and is kept as it is: no step from the previous version.
    let read = Config { auto_archive_on_merge: Default::default(), ..Config::default() };

    let config = Config::from_stored(Some(read), Some(previous(Some(false))));

    assert_eq!(config.config_version, "v8");
    assert!(!config.auto_archive_on_merge);
    assert_eq!(config, Config::default());
}

#[test]
fn earlier_settings_are_taken_over() {
    let c = Config::from_previous_version(previous(Some(false)));
    assert_eq!(c.config_version, "v8");
    assert_eq!(c.carried.theme.as_deref(), Some("DARK"));
    assert_eq!(c.git_branch_prefix, "mine");
    assert_eq!(c.workspace_dir.as_deref(), Some("/w"));
    assert!(c.disclaimer_acknowledged && c.onboarding_acknowledged && c.show_release_notes);
    assert!(!c.remote_onboarding_acknowledged);
    assert!(!c.analytics_enabled);
    assert!(c.relay_enabled && c.commit_reminder_enabled && c.pr_auto_description_enabled);
    assert_eq!(c.send_message_shortcut, SendMessageShortcut::ModifierEnter);
    // Whoever was never asked is counted as having agreed.
    assert!(Config::from_previous_version(previous(None)).analytics_enabled);
    assert!(Config::from_previous_version(previous(Some(true))).analytics_enabled);
}

#[test]
fn other_versions_are_not_taken_as_they_are() {
    let strange = Config { config_version: "v9".to_string(), ..Config::default() };
    assert_eq!(Config::from_stored(Some(strange), Some(previous(None))).git_branch_prefix, "mine");
    assert_eq!(Config::from_stored(None, Some(previous(None))).git_branch_prefix, "mine");
    // Where nothing can be read there are still the defaults.
    let strange = Config { config_version: "v9".to_string(), ..Config::default() };
    assert_eq!(Config::from_stored(Some(strange), None), Config::default());
    assert_eq!(Config::from_stored(None, None), Config::default());
}

#[test]
fn defaults_of_single_settings() {
    assert_eq!(default_git_branch_prefix(), "bc");
    assert!(default_relay_enabled());
    assert!(default_commit_reminder_enabled());
    assert!(default_pr_auto_description_enabled());
}
