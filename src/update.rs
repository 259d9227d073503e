//! Releases of the tool and the asset that fits a platform.
use vstd::prelude::*;

use crate::text::{chars_of, push_str, str_eq, string_of_range};

verus! {

/// semver's pre-release part of a version, carried through as it is.
#[verifier::external_type_specification]
#[verifier::external_body]
pub struct ExPrerelease(semver::Prerelease);

/// semver's build-metadata part of a version, carried through as it is.
#[verifier::external_type_specification]
#[verifier::external_body]
pub struct ExBuildMetadata(semver::BuildMetadata);

/// semver's parse error, carried through as it is.
#[verifier::external_type_specification]
#[verifier::external_body]
pub struct ExSemverError(semver::Error);

/// A parsed version: its numeric core as plain numbers, its pre-release and build parts as
/// semver keeps them.
pub struct SemVer {
    pub major: u64,
    pub minor: u64,
    pub patch: u64,
    pub pre: semver::Prerelease,
    pub build: semver::BuildMetadata,
}

/// What `semver::Version::parse` makes of a text: `None` where it refuses it, else the
/// major, minor and patch numbers of the version.
pub uninterp spec fn semver_core(s: Seq<char>) -> Option<(u64, u64, u64)>;

pub open spec fn semver_accepts(s: Seq<char>) -> bool {
    semver_core(s) is Some
}

/// Relies on `semver::Version::parse`: it succeeds exactly on the texts it accepts, and the
/// numbers it reads depend on the text alone. The fields are moved over one for one.
#[verifier::external_body]
fn parse_semver(s: &str) -> (r: Result<SemVer, semver::Error>)
    ensures
        match r {
            Ok(v) => semver_core(s@) == Some((v.major, v.minor, v.patch)),
            Err(_) => semver_core(s@) is None,
        },
{
    match semver::Version::parse(s) {
        Ok(v) => Ok(SemVer { major: v.major, minor: v.minor, patch: v.patch, pre: v.pre, build: v.build }),
        Err(e) => Err(e),
    }
}

/// Relies on semver's `Ord` for `Prerelease` (a release ranks above its pre-releases).
#[verifier::external_body]
fn prerelease_cmp(a: &semver::Prerelease, b: &semver::Prerelease) -> core::cmp::Ordering {
    a.cmp(b)
}

/// Relies on semver's `Ord` for `BuildMetadata`.
#[verifier::external_body]
fn build_cmp(a: &semver::BuildMetadata, b: &semver::BuildMetadata) -> core::cmp::Ordering {
    a.cmp(b)
}

/// The numeric core `a` comes after `b`: by major, then minor, then patch.
pub open spec fn core_after(a: (u64, u64, u64), b: (u64, u64, u64)) -> bool {
    a.0 > b.0 || (a.0 == b.0 && (a.1 > b.1 || (a.1 == b.1 && a.2 > b.2)))
}

/// Version precedence as semver orders `Version`: major, minor, patch, then the
/// pre-release and the build parts by semver's own order.
fn version_gt(a: &SemVer, b: &SemVer) -> (r: bool)
    ensures
        (a.major, a.minor, a.patch) != (b.major, b.minor, b.patch) ==> r == core_after(
            (a.major, a.minor, a.patch),
            (b.major, b.minor, b.patch),
        ),
{
    if a.major != b.major {
        return a.major > b.major;
    }
    if a.minor != b.minor {
        return a.minor > b.minor;
    }
    if a.patch != b.patch {
        return a.patch > b.patch;
    }
    match prerelease_cmp(&a.pre, &b.pre) {
        core::cmp::Ordering::Greater => true,
        core::cmp::Ordering::Less => false,
        core::cmp::Ordering::Equal => match build_cmp(&a.build, &b.build) {
            core::cmp::Ordering::Greater => true,
            _ => false,
        },
    }
}

/// A version text without its leading `v`s.
pub open spec fn without_v(s: Seq<char>) -> Seq<char>
    decreases s.len(),
{
    if s.len() > 0 && s[0] == 'v' {
        without_v(s.drop_first())
    } else {
        s
    }
}

/// A version text the semver parser refuses, as it was given.
#[derive(Debug, Clone)]
pub struct InvalidVersion {
    pub text: String,
}

fn strip_v(s: &str) -> (r: String)
    ensures
        r@ == without_v(s@),
{
    let v = chars_of(s);
    let mut i: usize = 0;
    assert(v@.subrange(0, v@.len() as int) =~= v@);
    while i < v.len() && v[i] == 'v'
        invariant
            i <= v@.len(),
            without_v(s@) == without_v(v@.subrange(i as int, v@.len() as int)),
            v@ == s@,
        decreases v.len() - i,
    {
        assert(v@.subrange(i as int, v@.len() as int).drop_first() =~= v@.subrange(i + 1, v@.len() as int));
        i = i + 1;
    }
    string_of_range(&v, i, v.len())
}

/// Parses a version, with or without leading `v`s; the error holds the text as given.
pub fn parse_version(version: &str) -> (r: Result<SemVer, InvalidVersion>)
    ensures
        match r {
            Ok(v) => semver_core(without_v(version@)) == Some((v.major, v.minor, v.patch)),
            Err(e) => semver_core(without_v(version@)) is None && e.text@ == version@,
        },
{
    let cleaned = strip_v(version);
    match parse_semver(cleaned.as_str()) {
        Ok(v) => Ok(v),
        Err(_) => Err(InvalidVersion { text: String::from_str(version) }),
    }
}

/// Whether the release `remote` is newer than `current`, both with or without a leading
/// `v`; an error names the first of the two that is not a version.
pub fn is_newer(remote: &str, current: &str) -> (r: Result<bool, InvalidVersion>)
    ensures
        r is Ok <==> semver_accepts(without_v(remote@)) && semver_accepts(without_v(current@)),
        !semver_accepts(without_v(remote@)) ==> (r matches Err(e) && e.text@ == remote@),
        semver_accepts(without_v(remote@)) && !semver_accepts(without_v(current@)) ==> (r matches Err(
            e,
        ) && e.text@ == current@),
        ({
            let a = semver_core(without_v(remote@));
            let b = semver_core(without_v(current@));
            a is Some && b is Some && a->0 != b->0 ==> r == Ok::<bool, InvalidVersion>(core_after(a->0, b->0))
        }),
{
    let remote_ver = match parse_version(remote) {
        Ok(v) => v,
        Err(e) => {
            return Err(e);
        },
    };
    let current_ver = match parse_version(current) {
        Ok(v) => v,
        Err(e) => {
            return Err(e);
        },
    };
    Ok(version_gt(&remote_ver, &current_ver))
}

#[derive(Debug)]
pub struct Asset {
    pub name: String,
    pub browser_download_url: String,
    pub size: u64,
}

#[derive(Debug)]
pub struct Release {
    pub tag_name: String,
    pub name: Option<String>,
    pub body: Option<String>,
    pub assets: Vec<Asset>,
    pub html_url: String,
}

/// The archive name of the build for `target`: `repo-<target>.zip` on Windows,
/// `repo-<target>.tar.gz` elsewhere.
pub open spec fn asset_name(target: Seq<char>, windows: bool) -> Seq<char> {
    "repo-"@ + target + if windows {
        ".zip"@
    } else {
        ".tar.gz"@
    }
}

/// The first asset of the release named for `target`, if there is one.
pub fn get_platform_asset<'a>(release: &'a Release, target: &str, windows: bool) -> (r: Option<
    &'a Asset,
>)
    ensures
        match r {
            Some(a) => exists|k: int|
                0 <= k < release.assets@.len() && release.assets@[k] == *a && a.name@ == asset_name(
                    target@,
                    windows,
                ) && forall|j: int|
                    0 <= j < k ==> #[trigger] release.assets@[j].name@ != asset_name(target@, windows),
            None => forall|k: int|
                0 <= k < release.assets@.len() ==> #[trigger] release.assets@[k].name@ != asset_name(
                    target@,
                    windows,
                ),
        },
{
    let mut expected = String::from_str("repo-");
    push_str(&mut expected, target);
    if windows {
        push_str(&mut expected, ".zip");
    } else {
        push_str(&mut expected, ".tar.gz");
    }
    let mut k: usize = 0;
    while k < release.assets.len()
        invariant
            k <= release.assets@.len(),
            expected@ == asset_name(target@, windows),
            forall|j: int| 0 <= j < k ==> #[trigger] release.assets@[j].name@ != asset_name(target@, windows),
        decreases release.assets.len() - k,
    {
        if str_eq(release.assets[k].name.as_str(), expected.as_str()) {
            return Some(&release.assets[k]);
        }
        k = k + 1;
    }
    None
}

/// How fetching the latest release went wrong.
#[derive(Debug, Clone)]
pub enum FetchError {
    /// The project has no published release.
    NoReleases,
    /// Any other failure, with its message.
    Other { message: String },
}

/// Why checking for an update failed.
#[derive(Debug, Clone)]
pub enum UpdateError {
    Fetch { message: String },
    Version(InvalidVersion),
}

/// The decision after fetching the latest release: no release at all is no update, a
/// release newer than `current` is the update, any other fetch failure or a tag that is
/// not a version is an error.
pub fn check_for_update(fetched: Result<Release, FetchError>, current: &str) -> (r: Result<
    Option<Release>,
    UpdateError,
>)
    ensures
        fetched matches Err(FetchError::NoReleases) ==> (r matches Ok(None)),
        fetched matches Err(FetchError::Other { message }) ==> (r matches Err(UpdateError::Fetch { message: m }) && m == message),
        fetched matches Ok(rel) ==> (r is Ok <==> semver_accepts(without_v(rel.tag_name@))
            && semver_accepts(without_v(current@))),
        fetched matches Ok(rel) ==> (r matches Ok(Some(x)) ==> x == rel),
        fetched matches Ok(rel) ==> ({
            let a = semver_core(without_v(rel.tag_name@));
            let b = semver_core(without_v(current@));
            a is Some && b is Some && a->0 != b->0 ==> (r is Ok && (r->Ok_0 is Some <==> core_after(a->0, b->0)))
        }),
{
    let release = match fetched {
        Ok(rel) => rel,
        Err(FetchError::NoReleases) => {
            return Ok(None);
        },
        Err(FetchError::Other { message }) => {
            return Err(UpdateError::Fetch { message });
        },
    };
    match is_newer(release.tag_name.as_str(), current) {
        Ok(true) => Ok(Some(release)),
        Ok(false) => Ok(None),
        Err(e) => Err(UpdateError::Version(e)),
    }
}

} // verus!
