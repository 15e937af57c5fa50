use std::path::Path;

use bettercoding::assets::{
    asset_dir, config_path, credentials_path, profiles_path, relay_host_credentials_path,
    resolve_data_dir, server_signing_key_path, trusted_keys_path, try_prod_asset_dir_path,
    DataDirResolveError, FileProbe, ProdAssetDir, Resolution, ResolutionReason, DB_FILE_NAME,
    LEGACY_DB_FILE_NAME,
};

/// The files that are there, and those that cannot be looked at.
struct Disk {
    files: Vec<String>,
    blocked: Vec<String>,
}

impl Disk {
    fn with(files: &[(&str, &str)]) -> Disk {
        Disk {
            files: files.iter().map(|(dir, name)| format!("{dir}/{name}")).collect(),
            blocked: vec![],
        }
    }

    fn probe(&self, path: &str) -> FileProbe {
        if self.blocked.iter().any(|b| Path::new(path).starts_with(b)) {
            FileProbe::Unknown(DataDirResolveError {
                path: path.to_string(),
                source: "permission denied".to_string(),
            })
        } else if self.files.iter().any(|f| f == path) {
            FileProbe::Present
        } else {
            FileProbe::Absent
        }
    }

    fn resolve(
        &self,
        override_dir: Option<&str>,
        bettercoding_dir: &str,
        legacy_dir: &str,
    ) -> Result<Resolution, DataDirResolveError> {
        resolve_data_dir(
            override_dir.map(str::to_string),
            bettercoding_dir.to_string(),
            legacy_dir.to_string(),
            |path: &str| self.probe(path),
        )
    }
}

const BETTERCODING: &str = "/root/bettercoding";
const LEGACY: &str = "/root/vibe-kanban";

fn assert_resolution(
    result: Result<Resolution, DataDirResolveError>,
    expected_path: &str,
    expected_reason: ResolutionReason,
) {
    let resolution = result.expect("resolve data directory");
    assert_eq!(resolution.path, expected_path);
    assert_eq!(resolution.reason, expected_reason);
}

#[test]
fn uses_legacy_dir_when_only_legacy_has_database() {
    let disk = Disk::with(&[(LEGACY, DB_FILE_NAME)]);
    assert_resolution(
        disk.resolve(None, BETTERCODING, LEGACY),
        LEGACY,
        ResolutionReason::LegacyAdopt,
    );
}

#[test]
fn uses_legacy_dir_when_it_only_has_pre_v2_database() {
    let disk = Disk::with(&[(LEGACY, LEGACY_DB_FILE_NAME)]);
    assert_resolution(
        disk.resolve(None, BETTERCODING, LEGACY),
        LEGACY,
        ResolutionReason::LegacyAdopt,
    );
}

#[test]
fn ignores_pre_v2_database_in_bettercoding_dir() {
    let disk = Disk::with(&[(BETTERCODING, LEGACY_DB_FILE_NAME), (LEGACY, DB_FILE_NAME)]);
    assert_resolution(
        disk.resolve(None, BETTERCODING, LEGACY),
        LEGACY,
        ResolutionReason::LegacyAdopt,
    );
}

#[test]
fn prefers_bettercoding_dir_when_both_have_database() {
    let disk = Disk::with(&[(BETTERCODING, DB_FILE_NAME), (LEGACY, DB_FILE_NAME)]);
    assert_resolution(
        disk.resolve(None, BETTERCODING, LEGACY),
        BETTERCODING,
        ResolutionReason::Bettercoding,
    );
}

#[test]
fn uses_bettercoding_dir_for_fresh_install() {
    let disk = Disk::with(&[]);
    assert_resolution(
        disk.resolve(None, BETTERCODING, LEGACY),
        BETTERCODING,
        ResolutionReason::Fresh,
    );
}

#[test]
fn override_wins_when_both_have_database() {
    let disk = Disk::with(&[(BETTERCODING, DB_FILE_NAME), (LEGACY, DB_FILE_NAME)]);
    assert_resolution(
        disk.resolve(Some("/root/override"), BETTERCODING, LEGACY),
        "/root/override",
        ResolutionReason::Override,
    );
}

#[test]
fn ignores_legacy_dir_without_database() {
    let disk = Disk::with(&[(LEGACY, "something-else")]);
    assert_resolution(
        disk.resolve(None, BETTERCODING, LEGACY),
        BETTERCODING,
        ResolutionReason::Fresh,
    );
}

#[test]
fn wrong_type_database_candidate_is_treated_as_absent() {
    // A directory under the database's name is no file that is present.
    let disk = Disk::with(&[("/root/bettercoding/db.v2.sqlite", "inner"), (LEGACY, DB_FILE_NAME)]);
    assert_resolution(
        disk.resolve(None, BETTERCODING, LEGACY),
        LEGACY,
        ResolutionReason::LegacyAdopt,
    );
}

#[test]
fn errors_when_bettercoding_database_probe_is_unknown() {
    let mut disk = Disk::with(&[(LEGACY, DB_FILE_NAME)]);
    disk.blocked.push("/root/blocked".to_string());
    let error = disk
        .resolve(None, "/root/blocked/bettercoding", LEGACY)
        .expect_err("unknown preferred candidate must fail resolution");
    assert_eq!(error.path, "/root/blocked/bettercoding/db.v2.sqlite");
    assert_eq!(error.source, "permission denied");
}

#[test]
fn errors_when_legacy_database_probe_is_unknown() {
    let mut disk = Disk::with(&[]);
    disk.blocked.push("/root/blocked".to_string());
    let error = disk
        .resolve(None, BETTERCODING, "/root/blocked/vibe-kanban")
        .expect_err("unknown legacy candidate must fail resolution");
    assert_eq!(error.path, "/root/blocked/vibe-kanban/db.v2.sqlite");
    assert_eq!(
        error.message(),
        "failed to inspect data file candidate `/root/blocked/vibe-kanban/db.v2.sqlite`: \
         permission denied; refusing to guess the data directory to protect existing data"
    );
}

#[test]
fn prod_dir_needs_a_home_unless_overridden() {
    let absent = |_: &str| FileProbe::Absent;
    assert_eq!(
        try_prod_asset_dir_path(None, None, Some(LEGACY.to_string()), absent),
        Err("OS didn't give us a home directory".to_string())
    );
    assert_eq!(
        try_prod_asset_dir_path(Some("/data".to_string()), None, None, absent),
        Ok("/data".to_string())
    );
    assert_eq!(
        try_prod_asset_dir_path(
            None,
            Some(BETTERCODING.to_string()),
            Some(LEGACY.to_string()),
            absent
        ),
        Ok(BETTERCODING.to_string())
    );
}

#[test]
fn development_builds_keep_their_own_directory() {
    let prod = || "/data".to_string();
    assert_eq!(asset_dir(true, false, prod(), "/src/crate"), "/src/crate/../../dev_assets");
    assert_eq!(asset_dir(true, true, prod(), "/src/crate"), "/data");
    assert_eq!(asset_dir(false, false, prod(), "/src/crate"), "/data");
}

#[test]
fn files_of_the_data_directory() {
    assert_eq!(config_path("/data"), "/data/config.json");
    assert_eq!(profiles_path("/data"), "/data/profiles.json");
    assert_eq!(credentials_path("/data"), "/data/credentials.json");
    assert_eq!(trusted_keys_path("/data"), "/data/trusted_ed25519_public_keys.json");
    assert_eq!(server_signing_key_path("/data"), "/data/server_ed25519_signing_key");
    assert_eq!(relay_host_credentials_path("/data"), "/data/relay_host_credentials.json");
}

#[test]
fn reasons_have_names() {
    assert_eq!(ResolutionReason::Override.as_str(), "override");
    assert_eq!(ResolutionReason::Bettercoding.as_str(), "bettercoding");
    assert_eq!(ResolutionReason::LegacyAdopt.as_str(), "legacy-adopt");
    assert_eq!(ResolutionReason::Fresh.as_str(), "fresh");
}

#[test]
fn the_first_data_dir_is_kept() {
    let some = |dir: &str| Some(dir.to_string());
    let mut kept = ProdAssetDir::new();
    let first = kept.path(None, some(BETTERCODING), some(LEGACY), |_: &str| FileProbe::Absent);
    assert_eq!(first, Ok(BETTERCODING.to_string()));
    // Nothing is looked at again, and nothing else is chosen.
    let again = kept.path(some("/elsewhere"), None, None, |path: &str| panic!("looked at {path}"));
    assert_eq!(again, first);
}

#[test]
fn a_failure_to_choose_is_kept_too() {
    let some = |dir: &str| Some(dir.to_string());
    let mut kept = ProdAssetDir::new();
    let failed = kept.path(None, some(BETTERCODING), some(LEGACY), |path: &str| {
        FileProbe::Unknown(DataDirResolveError {
            path: path.to_string(),
            source: "permission denied".to_string(),
        })
    });
    assert!(failed.as_ref().unwrap_err().contains("permission denied"));
    let again = kept.path(None, some(BETTERCODING), some(LEGACY), |_: &str| FileProbe::Present);
    assert_eq!(again, failed);

    let mut homeless = ProdAssetDir::new();
    let failed = homeless.path(None, None, some(LEGACY), |_: &str| FileProbe::Present);
    assert_eq!(failed, Err("OS didn't give us a home directory".to_string()));
    assert_eq!(homeless.path(some("/late"), None, None, |_: &str| FileProbe::Present), failed);
}
