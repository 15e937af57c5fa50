//! Where the application keeps its data.

use vstd::prelude::*;
use vstd::string::*;

use crate::once::keeps_first;
use crate::path_text::{join, joined_path};
use crate::text::concat3;

verus! {

pub const DB_FILE_NAME: &'static str = "db.v2.sqlite";

/// The name of the database in earlier versions.
pub const LEGACY_DB_FILE_NAME: &'static str = "db.sqlite";

/// A data file that could not be looked at.
#[derive(Debug, PartialEq, Eq)]
pub struct DataDirResolveError {
    pub path: String,
    /// What went wrong.
    pub source: String,
}

impl DataDirResolveError {
    /// The wording.
    pub fn message(&self) -> (m: String)
        ensures
            m@ == "failed to inspect data file candidate `"@ + self.path@ + "`: "@ + self.source@
                + "; refusing to guess the data directory to protect existing data"@,
    {
        let mut m = concat3(
            "failed to inspect data file candidate `",
            self.path.as_str(),
            "`: ",
        );
        m.append(self.source.as_str());
        m.append("; refusing to guess the data directory to protect existing data");
        m
    }
}

/// What is known of a file.
#[derive(Debug, PartialEq, Eq)]
pub enum FileProbe {
    Present,
    Absent,
    /// It could not be looked at.
    Unknown(DataDirResolveError),
}

/// Why a directory was chosen for the data.
#[derive(Debug, Clone, Copy, PartialEq, Eq, Structural)]
pub enum ResolutionReason {
    Override,
    Bettercoding,
    LegacyAdopt,
    Fresh,
}

impl ResolutionReason {
    /// The reason, as it is logged.
    pub fn as_str(self) -> (s: &'static str)
        ensures
            s@ == match self {
                ResolutionReason::Override => "override"@,
                ResolutionReason::Bettercoding => "bettercoding"@,
                ResolutionReason::LegacyAdopt => "legacy-adopt"@,
                ResolutionReason::Fresh => "fresh"@,
            },
    {
        match self {
            ResolutionReason::Override => "override",
            ResolutionReason::Bettercoding => "bettercoding",
            ResolutionReason::LegacyAdopt => "legacy-adopt",
            ResolutionReason::Fresh => "fresh",
        }
    }
}

/// The directory that was chosen for the data.
#[derive(Debug, PartialEq, Eq)]
pub struct Resolution {
    pub path: String,
    pub reason: ResolutionReason,
}

/// Whether looking for `file` in `dir` comes out as `a`.
pub open spec fn probes_as<P: Fn(&str) -> FileProbe>(
    probe: P,
    dir: Seq<char>,
    file: Seq<char>,
    a: FileProbe,
) -> bool {
    exists|s: &str| s@ == joined_path(dir, file) && #[trigger] call_ensures(probe, (s,), a)
}

/// Whether looking for a database of any age in `dir` comes out as `a`: the
/// current one decides, unless it is absent.
pub open spec fn probes_any_database<P: Fn(&str) -> FileProbe>(
    probe: P,
    dir: Seq<char>,
    a: FileProbe,
) -> bool {
    ||| !(a is Absent) && probes_as(probe, dir, DB_FILE_NAME@, a)
    ||| probes_as(probe, dir, DB_FILE_NAME@, FileProbe::Absent) && probes_as(
        probe,
        dir,
        LEGACY_DB_FILE_NAME@,
        a,
    )
}

/// Looks for a database of any age. A current one that cannot be looked at is
/// not passed over.
pub fn probe_legacy_database<P: Fn(&str) -> FileProbe>(legacy_dir: &str, probe: &P) -> (r: FileProbe)
    requires
        forall|p: &str| call_requires(*probe, (p,)),
    ensures
        probes_any_database(*probe, legacy_dir@, r),
{
    let current = join(legacy_dir, DB_FILE_NAME);
    match probe(current.as_str()) {
        FileProbe::Absent => {
            let old = join(legacy_dir, LEGACY_DB_FILE_NAME);
            probe(old.as_str())
        },
        other => other,
    }
}

/// Whether choosing a directory for the data comes out as `r`.
pub open spec fn data_dir_is<P: Fn(&str) -> FileProbe>(
    override_dir: Option<String>,
    bettercoding_dir: String,
    legacy_dir: String,
    probe: P,
    r: Result<Resolution, DataDirResolveError>,
) -> bool {
    match override_dir {
        Some(path) => r == Ok::<Resolution, DataDirResolveError>(
            Resolution { path, reason: ResolutionReason::Override },
        ),
        None => exists|a: FileProbe| #[trigger]
            probes_as(probe, bettercoding_dir@, DB_FILE_NAME@, a) && match a {
                FileProbe::Present => r == Ok::<Resolution, DataDirResolveError>(
                    Resolution { path: bettercoding_dir, reason: ResolutionReason::Bettercoding },
                ),
                FileProbe::Unknown(e) => r == Err::<Resolution, DataDirResolveError>(e),
                FileProbe::Absent => exists|b: FileProbe| #[trigger]
                    probes_any_database(probe, legacy_dir@, b) && match b {
                        FileProbe::Present => r == Ok::<Resolution, DataDirResolveError>(
                            Resolution { path: legacy_dir, reason: ResolutionReason::LegacyAdopt },
                        ),
                        FileProbe::Unknown(e) => r == Err::<Resolution, DataDirResolveError>(e),
                        FileProbe::Absent => r == Ok::<Resolution, DataDirResolveError>(
                            Resolution { path: bettercoding_dir, reason: ResolutionReason::Fresh },
                        ),
                    },
            },
    }
}

/// Chooses the directory for the data: the configured one, else the current one
/// where it holds the database, else the old one where it holds a database of
/// any age, else the current one. What cannot be looked at is never passed
/// over: the choice fails, so that no data is lost from sight.
pub fn resolve_data_dir<P: Fn(&str) -> FileProbe>(
    override_dir: Option<String>,
    bettercoding_dir: String,
    legacy_dir: String,
    probe: P,
) -> (r: Result<Resolution, DataDirResolveError>)
    requires
        forall|p: &str| call_requires(probe, (p,)),
    ensures
        data_dir_is(override_dir, bettercoding_dir, legacy_dir, probe, r),
{
    if let Some(path) = override_dir {
        return Ok(Resolution { path, reason: ResolutionReason::Override });
    }
    let current = join(bettercoding_dir.as_str(), DB_FILE_NAME);
    let found = probe(current.as_str());
    proof {
        assert(probes_as(probe, bettercoding_dir@, DB_FILE_NAME@, found));
    }
    match found {
        FileProbe::Present => {
            return Ok(
                Resolution { path: bettercoding_dir, reason: ResolutionReason::Bettercoding },
            );
        },
        FileProbe::Unknown(e) => return Err(e),
        FileProbe::Absent => {},
    }
    let old = probe_legacy_database(legacy_dir.as_str(), &probe);
    proof {
        assert(probes_any_database(probe, legacy_dir@, old));
    }
    match old {
        FileProbe::Present => Ok(
            Resolution { path: legacy_dir, reason: ResolutionReason::LegacyAdopt },
        ),
        FileProbe::Unknown(e) => Err(e),
        FileProbe::Absent => Ok(
            Resolution { path: bettercoding_dir, reason: ResolutionReason::Fresh },
        ),
    }
}

/// Whether choosing the installed application's directory for the data comes out
/// as `r`.
pub open spec fn prod_dir_is<P: Fn(&str) -> FileProbe>(
    override_dir: Option<String>,
    bettercoding_dir: Option<String>,
    legacy_dir: Option<String>,
    probe: P,
    r: Result<String, String>,
) -> bool {
    match override_dir {
        Some(path) => r == Ok::<String, String>(path),
        None => match (bettercoding_dir, legacy_dir) {
            (Some(b), Some(l)) => exists|c: Result<Resolution, DataDirResolveError>| #[trigger]
                data_dir_is(None, b, l, probe, c) && match c {
                    Ok(chosen) => r == Ok::<String, String>(chosen.path),
                    Err(e) => r is Err && r->Err_0@ == "failed to inspect data file candidate `"@
                        + e.path@ + "`: "@ + e.source@
                        + "; refusing to guess the data directory to protect existing data"@,
                },
            _ => r is Err && r->Err_0@ == "OS didn't give us a home directory"@,
        },
    }
}

/// Chooses the installed application's directory for the data. `bettercoding_dir`
/// and `legacy_dir` are absent where the system names no home directory.
pub fn try_prod_asset_dir_path<P: Fn(&str) -> FileProbe>(
    override_dir: Option<String>,
    bettercoding_dir: Option<String>,
    legacy_dir: Option<String>,
    probe: P,
) -> (r: Result<String, String>)
    requires
        forall|p: &str| call_requires(probe, (p,)),
    ensures
        prod_dir_is(override_dir, bettercoding_dir, legacy_dir, probe, r),
{
    if let Some(path) = override_dir {
        return Ok(path);
    }
    match (bettercoding_dir, legacy_dir) {
        (Some(b), Some(l)) => match resolve_data_dir(None, b, l, probe) {
            Ok(chosen) => Ok(chosen.path),
            Err(e) => Err(e.message()),
        },
        _ => Err("OS didn't give us a home directory".to_owned()),
    }
}

/// The installed application's directory for the data, chosen once. A failure is
/// kept like a success, so that what could not be looked at is not looked at
/// again.
#[derive(Debug)]
pub struct ProdAssetDir {
    resolved: Option<Result<String, String>>,
}

impl ProdAssetDir {
    /// The answer that is kept.
    pub closed spec fn resolved(self) -> Option<Result<String, String>> {
        self.resolved
    }

    /// Nothing was chosen yet.
    pub fn new() -> (c: ProdAssetDir)
        ensures
            c.resolved() is None,
    {
        ProdAssetDir { resolved: None }
    }

    /// The directory, as [`try_prod_asset_dir_path`] chooses it on the first
    /// call. Later calls look at nothing and give the same answer, whatever
    /// their arguments are.
    pub fn path<P: Fn(&str) -> FileProbe>(
        &mut self,
        override_dir: Option<String>,
        bettercoding_dir: Option<String>,
        legacy_dir: Option<String>,
        probe: P,
    ) -> (r: Result<String, String>)
        requires
            old(self).resolved() is None ==> forall|p: &str| call_requires(probe, (p,)),
        ensures
            keeps_first(old(self).resolved(), r, final(self).resolved()),
            old(self).resolved() is None ==> prod_dir_is(
                override_dir,
                bettercoding_dir,
                legacy_dir,
                probe,
                r,
            ),
    {
        let answer = match &self.resolved {
            Some(kept) => return clone_answer(kept),
            None => try_prod_asset_dir_path(override_dir, bettercoding_dir, legacy_dir, probe),
        };
        self.resolved = Some(clone_answer(&answer));
        answer
    }
}

fn clone_answer(answer: &Result<String, String>) -> (r: Result<String, String>)
    ensures
        r == *answer,
{
    match answer {
        Ok(path) => Ok(path.clone()),
        Err(error) => Err(error.clone()),
    }
}

/// The directory for the data: a development build that nothing is configured
/// for keeps its own, below the sources.
pub fn asset_dir(
    development: bool,
    overridden: bool,
    prod_dir: String,
    project_root: &str,
) -> (dir: String)
    ensures
        dir@ == if development && !overridden {
            joined_path(project_root@, "../../dev_assets"@)
        } else {
            prod_dir@
        },
{
    if development && !overridden {
        join(project_root, "../../dev_assets")
    } else {
        prod_dir
    }
}

pub fn config_path(asset_dir: &str) -> (p: String)
    ensures
        p@ == joined_path(asset_dir@, "config.json"@),
{
    join(asset_dir, "config.json")
}

pub fn profiles_path(asset_dir: &str) -> (p: String)
    ensures
        p@ == joined_path(asset_dir@, "profiles.json"@),
{
    join(asset_dir, "profiles.json")
}

pub fn credentials_path(asset_dir: &str) -> (p: String)
    ensures
        p@ == joined_path(asset_dir@, "credentials.json"@),
{
    join(asset_dir, "credentials.json")
}

pub fn trusted_keys_path(asset_dir: &str) -> (p: String)
    ensures
        p@ == joined_path(asset_dir@, "trusted_ed25519_public_keys.json"@),
{
    join(asset_dir, "trusted_ed25519_public_keys.json")
}

pub fn server_signing_key_path(asset_dir: &str) -> (p: String)
    ensures
        p@ == joined_path(asset_dir@, "server_ed25519_signing_key"@),
{
    join(asset_dir, "server_ed25519_signing_key")
}

pub fn relay_host_credentials_path(asset_dir: &str) -> (p: String)
    ensures
        p@ == joined_path(asset_dir@, "relay_host_credentials.json"@),
{
    join(asset_dir, "relay_host_credentials.json")
}

/// Where what cannot be looked at decides, nothing is chosen: a database that
/// may be there is never passed over for another place.
pub proof fn law_unknown_database_stops_choice<P: Fn(&str) -> FileProbe>(
    bettercoding_dir: String,
    legacy_dir: String,
    probe: P,
    r: Result<Resolution, DataDirResolveError>,
)
    requires
        data_dir_is(None, bettercoding_dir, legacy_dir, probe, r),
        forall|a: FileProbe| #[trigger]
            probes_as(probe, bettercoding_dir@, DB_FILE_NAME@, a) ==> a is Unknown || (a is Absent
                && forall|b: FileProbe| #[trigger]
                probes_any_database(probe, legacy_dir@, b) ==> b is Unknown),
    ensures
        r is Err,
{
}

/// The directory for the data follows from what is found. A configured one is taken.
/// Otherwise the current one is taken where the database is there, the old one where
/// only it holds a database, of either age, and the current one where none does.
/// What cannot be looked at, before the choice is clear, is the outcome.
pub proof fn law_data_is_where_the_database_is<P: Fn(&str) -> FileProbe>(
    override_dir: Option<String>,
    bettercoding_dir: String,
    legacy_dir: String,
    probe: P,
    current: FileProbe,
    old_current: FileProbe,
    old_legacy: FileProbe,
    r: Result<Resolution, DataDirResolveError>,
)
    requires
        data_dir_is(override_dir, bettercoding_dir, legacy_dir, probe, r),
        forall|s: &str, a: FileProbe| #[trigger]
            call_ensures(probe, (s,), a) ==> (s@ == joined_path(bettercoding_dir@, DB_FILE_NAME@)
                ==> a == current) && (s@ == joined_path(legacy_dir@, DB_FILE_NAME@) ==> a
                == old_current) && (s@ == joined_path(legacy_dir@, LEGACY_DB_FILE_NAME@) ==> a
                == old_legacy),
    ensures
        override_dir matches Some(path) ==> r == Ok::<Resolution, DataDirResolveError>(
            Resolution { path, reason: ResolutionReason::Override },
        ),
        override_dir is None ==> {
            let old_one = if old_current is Absent {
                old_legacy
            } else {
                old_current
            };
            match current {
                FileProbe::Present => r == Ok::<Resolution, DataDirResolveError>(
                    Resolution { path: bettercoding_dir, reason: ResolutionReason::Bettercoding },
                ),
                FileProbe::Unknown(e) => r == Err::<Resolution, DataDirResolveError>(e),
                FileProbe::Absent => match old_one {
                    FileProbe::Present => r == Ok::<Resolution, DataDirResolveError>(
                        Resolution { path: legacy_dir, reason: ResolutionReason::LegacyAdopt },
                    ),
                    FileProbe::Unknown(e) => r == Err::<Resolution, DataDirResolveError>(e),
                    FileProbe::Absent => r == Ok::<Resolution, DataDirResolveError>(
                        Resolution { path: bettercoding_dir, reason: ResolutionReason::Fresh },
                    ),
                },
            }
        },
{
    assert forall|a: FileProbe| #[trigger]
        probes_as(probe, bettercoding_dir@, DB_FILE_NAME@, a) implies a == current by {}
    assert forall|a: FileProbe| #[trigger]
        probes_as(probe, legacy_dir@, DB_FILE_NAME@, a) implies a == old_current by {}
    assert forall|a: FileProbe| #[trigger]
        probes_as(probe, legacy_dir@, LEGACY_DB_FILE_NAME@, a) implies a == old_legacy by {}
}

/// The installed application's directory is the configured one, or else the one that
/// holds the data; where there is no home directory, or it cannot be told, there is
/// none.
pub proof fn law_installed_data_dir<P: Fn(&str) -> FileProbe>(
    override_dir: Option<String>,
    bettercoding_dir: Option<String>,
    legacy_dir: Option<String>,
    probe: P,
    r: Result<String, String>,
)
    requires
        prod_dir_is(override_dir, bettercoding_dir, legacy_dir, probe, r),
    ensures
        override_dir matches Some(path) ==> r == Ok::<String, String>(path),
        override_dir is None && (bettercoding_dir is None || legacy_dir is None) ==> r is Err,
        override_dir is None ==> (bettercoding_dir matches Some(b) ==> (legacy_dir matches Some(l)
            ==> exists|c: Result<Resolution, DataDirResolveError>| #[trigger]
            data_dir_is(None, b, l, probe, c) && (c is Ok <==> r is Ok) && (r matches Ok(path)
                ==> path == c->Ok_0.path) && (r matches Err(told) ==> names_both(
                told@,
                c->Err_0.path@,
                c->Err_0.source@,
            )))),
{
    if override_dir is None && bettercoding_dir is Some && legacy_dir is Some {
        let (b, l) = (bettercoding_dir->0, legacy_dir->0);
        let c = choose|c: Result<Resolution, DataDirResolveError>| #[trigger]
            data_dir_is(None, b, l, probe, c) && match c {
                Ok(chosen) => r == Ok::<String, String>(chosen.path),
                Err(e) => r is Err && r->Err_0@ == "failed to inspect data file candidate `"@
                    + e.path@ + "`: "@ + e.source@
                    + "; refusing to guess the data directory to protect existing data"@,
            };
        if let Err(e) = c {
            assert(names_both(r->Err_0@, e.path@, e.source@));
        }
        assert(data_dir_is(None, b, l, probe, c));
    }
}

/// Whether a text names first `a` and, behind it, `b`.
pub open spec fn names_both(text: Seq<char>, a: Seq<char>, b: Seq<char>) -> bool {
    exists|before: Seq<char>, between: Seq<char>, after: Seq<char>|
        text == #[trigger] (before + a + between + b + after)
}

} // verus!
