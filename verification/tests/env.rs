use std::collections::HashMap;
use std::path::PathBuf;

use bettercoding::env::{
    absolute_or_same, evaluate_disable_flag, evaluate_enable_flag, evaluate_usize_override,
    normalize_path_override, select_env_var_with_legacy, PathOverride, RawPath,
};
use bettercoding::feature_flags::cli_handover_enabled;
use bettercoding::path::expand_tilde;

fn select(vars: &[(&str, &str)], new_name: &str, legacy_name: &str) -> Option<String> {
    let vars = vars.iter().copied().collect::<HashMap<_, _>>();
    select_env_var_with_legacy(
        |name: &str| vars.get(name).map(|value| (*value).to_string()),
        new_name,
        legacy_name,
    )
}

fn home() -> Option<String> {
    Some("/home/someone".to_string())
}

#[test]
fn disable_flag_is_unset_when_variable_is_absent() {
    assert!(!evaluate_disable_flag("DISABLE_X", None));
}

#[test]
fn disable_flag_is_set_for_a_truthy_value() {
    assert!(evaluate_disable_flag("DISABLE_X", Some("1".to_string())));
}

#[test]
fn falsy_looking_values_still_disable() {
    for value in ["0", "false", "no", "off", "", "  FALSE  "] {
        assert!(
            evaluate_disable_flag("DISABLE_X", Some(value.to_string())),
            "{value:?} should still disable"
        );
    }
}

#[test]
fn enable_flag_is_off_when_variable_is_absent() {
    assert!(!evaluate_enable_flag("ENABLE_X", None));
}

#[test]
fn enable_flag_is_on_only_for_truthy_values() {
    for value in ["1", "true", "yes", "on", "  TRUE  "] {
        assert!(
            evaluate_enable_flag("ENABLE_X", Some(value.to_string())),
            "{value:?} should enable"
        );
    }
}

#[test]
fn falsy_values_do_not_enable() {
    for value in ["0", "false", "no", "off", "", "  FALSE  "] {
        assert!(
            !evaluate_enable_flag("ENABLE_X", Some(value.to_string())),
            "{value:?} should not enable"
        );
    }
}

#[test]
fn unrecognized_values_do_not_enable() {
    assert!(!evaluate_enable_flag("ENABLE_X", Some("ture".to_string())));
}

#[test]
fn returns_legacy_value_when_only_legacy_is_set() {
    assert_eq!(
        select(&[("OLD_NAME", "legacy")], "NEW_NAME", "OLD_NAME"),
        Some("legacy".to_string())
    );
}

#[test]
fn returns_new_value_when_only_new_is_set() {
    assert_eq!(
        select(&[("NEW_NAME", "new")], "NEW_NAME", "OLD_NAME"),
        Some("new".to_string())
    );
}

#[test]
fn prefers_new_value_when_both_are_set() {
    assert_eq!(
        select(
            &[("NEW_NAME", "new"), ("OLD_NAME", "legacy")],
            "NEW_NAME",
            "OLD_NAME",
        ),
        Some("new".to_string())
    );
}

#[test]
fn prefers_empty_new_value_when_both_are_set() {
    assert_eq!(
        select(
            &[("NEW_NAME", ""), ("OLD_NAME", "legacy")],
            "NEW_NAME",
            "OLD_NAME",
        ),
        Some(String::new())
    );
}

#[test]
fn returns_none_when_neither_is_set() {
    assert_eq!(select(&[], "NEW_NAME", "OLD_NAME"), None);
}

#[test]
fn empty_path_override_is_treated_as_unset() {
    assert_eq!(
        normalize_path_override("BC_TEST_PATH", RawPath::Text(String::new()), &home()),
        PathOverride::Unset
    );
    assert_eq!(
        normalize_path_override("BC_TEST_PATH", RawPath::Unset, &home()),
        PathOverride::Unset
    );
}

#[test]
fn relative_path_override_is_made_absolute() {
    let relative = PathBuf::from("relative-worktree-base");
    let expected = std::path::absolute(&relative).expect("make expected path absolute");
    let normalized = match normalize_path_override(
        "BC_TEST_PATH",
        RawPath::Text("relative-worktree-base".to_string()),
        &home(),
    ) {
        PathOverride::Relative(path) => {
            let made = std::path::absolute(&path).ok().map(|p| p.to_string_lossy().to_string());
            PathBuf::from(absolute_or_same(path, made))
        }
        other => panic!("a relative path was expected, got {other:?}"),
    };

    assert!(normalized.is_absolute());
    assert_eq!(normalized, expected);
}

#[test]
fn failed_absolute_path_is_used_as_it_is() {
    assert_eq!(absolute_or_same("rel".to_string(), None), "rel");
    assert_eq!(
        absolute_or_same("rel".to_string(), Some("/cwd/rel".to_string())),
        "/cwd/rel"
    );
}

#[test]
fn non_utf8_path_override_is_treated_as_unset() {
    assert_eq!(
        normalize_path_override("BC_TEST_PATH", RawPath::NotText, &home()),
        PathOverride::Unset
    );
}

#[test]
fn leading_tilde_in_path_override_is_expanded() {
    let raw = "~/bettercoding-test-override";
    let expected = expand_tilde(raw, &home());
    assert_ne!(expected, raw);
    assert_eq!(expected, "/home/someone/bettercoding-test-override");

    assert_eq!(
        normalize_path_override("BC_TEST_PATH", RawPath::Text(raw.to_string()), &home()),
        PathOverride::Absolute(expected)
    );
}

#[test]
fn tilde_stands_for_a_known_home_only() {
    assert_eq!(expand_tilde("~", &home()), "/home/someone");
    assert_eq!(expand_tilde("~", &None), "~");
    assert_eq!(expand_tilde("~other/x", &home()), "~other/x");
    // A backslash is a separator on some systems only.
    assert!(["~\\x", "/home/someone\\x"].contains(&expand_tilde("~\\x", &home()).as_str()));
    assert_eq!(expand_tilde("~\\x", &None), "~\\x");
    assert_eq!(expand_tilde("a/~", &home()), "a/~");
    assert_eq!(
        normalize_path_override("BC_TEST_PATH", RawPath::Text("~/x".to_string()), &None),
        PathOverride::Relative("~/x".to_string())
    );
}

#[test]
fn usize_override_unset_uses_the_default() {
    assert_eq!(evaluate_usize_override("BC_X", None, 4096), 4096);
}

#[test]
fn usize_override_applies_a_positive_value() {
    assert_eq!(
        evaluate_usize_override("BC_X", Some("8192".to_string()), 4096),
        8192
    );
}

#[test]
fn usize_override_tolerates_surrounding_whitespace() {
    assert_eq!(
        evaluate_usize_override("BC_X", Some("  8192\n".to_string()), 4096),
        8192
    );
}

#[test]
fn usize_override_rejects_zero_rather_than_disabling_the_buffer() {
    assert_eq!(
        evaluate_usize_override("BC_X", Some("0".to_string()), 4096),
        4096
    );
}

#[test]
fn usize_override_falls_back_on_unparseable_values() {
    for raw in ["", "not-a-number", "-1", "12.5"] {
        assert_eq!(
            evaluate_usize_override("BC_X", Some(raw.to_string()), 4096),
            4096,
            "expected {raw:?} to fall back"
        );
    }
}

#[test]
fn usize_override_reads_what_the_standard_parser_reads() {
    for raw in [
        "+7",
        "007",
        "18446744073709551615",
        "18446744073709551616",
        "99999999999999999999999",
        "+",
        "1_000",
        "1 2",
        "\u{0661}",
    ] {
        let expected = match raw.parse::<usize>() {
            Ok(n) if n > 0 => n,
            _ => 4096,
        };
        assert_eq!(
            evaluate_usize_override("BC_X", Some(raw.to_string()), 4096),
            expected,
            "{raw:?}"
        );
    }
}

#[test]
fn handover_is_dark_unless_switched_on() {
    let on = || Some("1".to_string());
    assert!(!cli_handover_enabled(None, None, None));
    assert!(cli_handover_enabled(None, None, on()));
    assert!(!cli_handover_enabled(None, None, Some("0".to_string())));
    // An old switch keeps it off, whatever its value.
    assert!(!cli_handover_enabled(Some("0".to_string()), None, on()));
    assert!(!cli_handover_enabled(None, Some(String::new()), on()));
}
