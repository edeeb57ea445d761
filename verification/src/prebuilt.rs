//! Prebuilt LLVM toolchains: choosing a release and installing it into the cache.

use crate::attestation::{auth_command, authentication, Auth, Signer};
use crate::download::{
    chosen, digest_of, is_safe_component, published, safe_component, select_release, sha256_digest,
    version_of, Asset, Release, COMPLETE_MARKER,
};
use crate::path::{join, join2, joined_path, Platform};
use crate::process::{argv, succeeded, Outcome};
use crate::sort::{first_index, lemma_filter_last, lemma_first_index};
use crate::text::{cat2, cat3, cat4, cat6, ends_with, equal, opt_text, starts_with, texts};
use vstd::prelude::*;

verus! {

/// Where the releases are listed.
pub const RELEASES_URL: &'static str =
    "https://api.github.com/repos/openharmony-rs/ohos-llvm-toolchains/releases?per_page=100";

/// The cache directory of downloaded toolchains.
pub const CACHE_SUBDIR: &'static str = "ohos-llvm";

/// The ref the archives are built from.
pub const SOURCE_REF: &'static str = "refs/heads/main";

/// The workflow that publishes the toolchains.
pub fn prebuilt_signer() -> (res: Signer)
    ensures
        res.repository@ == "openharmony-rs/ohos-llvm-toolchains"@,
        res.workflow@ == "openharmony-rs/ohos-llvm-toolchains/.github/workflows/mirror.yml"@,
{
    Signer {
        repository: "openharmony-rs/ohos-llvm-toolchains",
        workflow: "openharmony-rs/ohos-llvm-toolchains/.github/workflows/mirror.yml",
    }
}

/// A host there are toolchains for.
#[derive(Clone, Copy, Debug)]
pub struct Host {
    pub id: &'static str,
    pub asset_prefix: &'static str,
}

/// The name of a host, as the releases spell it.
pub open spec fn host_id(os: Seq<char>, arch: Seq<char>) -> Option<Seq<char>> {
    if os == "linux"@ && arch == "x86_64"@ {
        Some("linux-x86_64"@)
    } else if os == "macos"@ && arch == "aarch64"@ {
        Some("darwin-arm64"@)
    } else if os == "macos"@ && arch == "x86_64"@ {
        Some("darwin-x86_64"@)
    } else if os == "windows"@ && arch == "x86_64"@ {
        Some("windows-x86_64"@)
    } else {
        None
    }
}

/// What the name of an asset for a host starts with.
pub open spec fn asset_prefix_of(id: Seq<char>) -> Seq<char> {
    "clang_"@ + id + "-"@
}

pub fn host(os: &str, arch: &str) -> (res: Option<Host>)
    ensures
        match res {
            Some(host) => {
                &&& host_id(os@, arch@) == Some(host.id@)
                &&& host.asset_prefix@ == asset_prefix_of(host.id@)
            },
            None => host_id(os@, arch@) is None,
        },
{
    proof {
        reveal_strlit("clang_");
        reveal_strlit("-");
        reveal_strlit("linux-x86_64");
        reveal_strlit("darwin-arm64");
        reveal_strlit("darwin-x86_64");
        reveal_strlit("windows-x86_64");
        reveal_strlit("clang_linux-x86_64-");
        reveal_strlit("clang_darwin-arm64-");
        reveal_strlit("clang_darwin-x86_64-");
        reveal_strlit("clang_windows-x86_64-");
        assert("clang_linux-x86_64-"@ =~= asset_prefix_of("linux-x86_64"@));
        assert("clang_darwin-arm64-"@ =~= asset_prefix_of("darwin-arm64"@));
        assert("clang_darwin-x86_64-"@ =~= asset_prefix_of("darwin-x86_64"@));
        assert("clang_windows-x86_64-"@ =~= asset_prefix_of("windows-x86_64"@));
    }
    if equal(os, "linux") && equal(arch, "x86_64") {
        Some(Host { id: "linux-x86_64", asset_prefix: "clang_linux-x86_64-" })
    } else if equal(os, "macos") && equal(arch, "aarch64") {
        Some(Host { id: "darwin-arm64", asset_prefix: "clang_darwin-arm64-" })
    } else if equal(os, "macos") && equal(arch, "x86_64") {
        Some(Host { id: "darwin-x86_64", asset_prefix: "clang_darwin-x86_64-" })
    } else if equal(os, "windows") && equal(arch, "x86_64") {
        Some(Host { id: "windows-x86_64", asset_prefix: "clang_windows-x86_64-" })
    } else {
        None
    }
}

/// Whether a requested version can be looked for.
pub fn validate_version(version: &str) -> (res: Result<(), String>)
    ensures
        match res {
            Ok(()) => safe_component(version@),
            Err(message) => {
                &&& !safe_component(version@)
                &&& message@ == "invalid prebuilt LLVM version `"@ + version@
                    + "`; expected a version such as `19` or `19.1.4-79830f`"@
            },
        },
{
    if is_safe_component(version) {
        Ok(())
    } else {
        Err(
            cat3(
                "invalid prebuilt LLVM version `",
                version,
                "`; expected a version such as `19` or `19.1.4-79830f`",
            ),
        )
    }
}

/// The toolchain to download.
#[derive(Debug)]
pub struct Selection {
    pub version: String,
    pub host: Host,
    pub asset: Asset,
    pub sha256: String,
}

/// Whether an asset is the toolchain's archive for a host.
pub open spec fn is_archive(asset: Asset, id: Seq<char>) -> bool {
    asset_prefix_of(id).is_prefix_of(asset.name@) && ".tar.gz"@.is_suffix_of(asset.name@)
}

/// What is selected of `release`, or why it cannot be used.
pub open spec fn selection_of(
    release: Release,
    id: Seq<char>,
    res: Result<Selection, String>,
) -> bool {
    let version = version_of(release, "toolchain-"@);
    let assets = release.assets@;
    let i = first_index(assets, |asset: Asset| is_archive(asset, id)) as int;
    if !safe_component(version) {
        res matches Err(message) && message@ == "release `"@ + release.tag_name@
            + "` has an unsafe version name"@
    } else if i >= assets.len() {
        res matches Err(message) && message@ == "release `"@ + release.tag_name@
            + "` has no clang archive for host "@ + id
    } else {
        match digest_of(assets[i]) {
            None => res matches Err(message) && message@ == "asset `"@ + assets[i].name@
                + "` has no valid SHA-256 digest"@,
            Some(digest) => {
                &&& res matches Ok(selection)
                &&& selection.version@ == version
                &&& selection.host.id@ == id
                &&& selection.host.asset_prefix@ == asset_prefix_of(id)
                &&& selection.asset == assets[i]
                &&& selection.sha256@ == digest
            },
        }
    }
}

/// What a requested version selects for a host, or why it selects nothing.
pub open spec fn select_is(
    releases: Seq<Release>,
    requested: Seq<char>,
    os: Seq<char>,
    arch: Seq<char>,
    res: Result<Selection, String>,
) -> bool {
    match host_id(os, arch) {
        None => res matches Err(message) && message@
            == "prebuilt OpenHarmony LLVM toolchains are not available for host "@ + os + "-"@ + arch,
        Some(id) => match chosen(published(releases, "toolchain-"@), "toolchain-"@, requested) {
            None => res matches Err(message) && message@
                == "no prebuilt OpenHarmony LLVM release matches version `"@ + requested + "`"@,
            Some(release) => selection_of(release, id, res),
        },
    }
}

/// The newest release matching `requested`, and its archive for the host.
pub fn select(releases: Vec<Release>, requested: &str, os: &str, arch: &str) -> (res: Result<
    Selection,
    String,
>)
    ensures
        select_is(releases@, requested@, os@, arch@, res),
{
    let host = match host(os, arch) {
        Some(host) => host,
        None => {
            return Err(
                cat4(
                    "prebuilt OpenHarmony LLVM toolchains are not available for host ",
                    os,
                    "-",
                    arch,
                ),
            );
        },
    };
    let (release, version) = match select_release(releases, "toolchain-", requested) {
        Some(found) => found,
        None => {
            return Err(
                cat3("no prebuilt OpenHarmony LLVM release matches version `", requested, "`"),
            );
        },
    };
    let tag = release.tag_name.as_str();
    if !is_safe_component(version.as_str()) {
        return Err(cat3("release `", tag, "` has an unsafe version name"));
    }
    let assets = &release.assets;
    let ghost fits = |asset: Asset| is_archive(asset, host.id@);
    let mut i: usize = 0;
    while i < assets.len() && !(starts_with(assets[i].name.as_str(), host.asset_prefix) && ends_with(
        assets[i].name.as_str(),
        ".tar.gz",
    ))
        invariant
            i <= assets.len(),
            host.asset_prefix@ == asset_prefix_of(host.id@),
            fits == (|asset: Asset| is_archive(asset, host.id@)),
            forall|k: int| 0 <= k < i ==> !fits(#[trigger] assets@[k]),
        decreases assets.len() - i,
    {
        i += 1;
    }
    proof {
        lemma_first_index(assets@, fits, i as int);
    }
    if i >= assets.len() {
        return Err(cat4("release `", tag, "` has no clang archive for host ", host.id));
    }
    let asset = assets[i].clone();
    match sha256_digest(&asset) {
        Some(sha256) => Ok(Selection { version, host, asset, sha256 }),
        None => Err(cat3("asset `", asset.name.as_str(), "` has no valid SHA-256 digest")),
    }
}

/// The directories by which a toolchain is recognised.
pub fn toolchain_directories(platform: Platform, path: &str) -> (res: Vec<String>)
    ensures
        texts(res@) == seq![
            joined_path(platform, path@, "bin"@),
            crate::toolchain::libcxx_headers_of(platform, path@),
        ],
        texts(res@) == directories_of(platform, path@),
{
    let mut res: Vec<String> = Vec::new();
    res.push(join(platform, path, "bin"));
    res.push(join2(platform, path, "include", "libcxx-ohos"));
    proof {
        assert(texts(res@) =~= seq![
            joined_path(platform, path@, "bin"@),
            crate::toolchain::libcxx_headers_of(platform, path@),
        ]);
    }
    res
}

/// The directories every toolchain has: its programs, and the headers of its C++ library.
pub open spec fn directories_of(platform: Platform, path: Seq<char>) -> Seq<Seq<char>> {
    seq![
        joined_path(platform, path, "bin"@),
        joined_path(platform, joined_path(platform, path, "include"@), "libcxx-ohos"@),
    ]
}

/// An entry of an unpacked archive.
pub struct Entry {
    pub path: String,
    pub is_toolchain: bool,
}

/// The entries that are toolchains.
pub open spec fn toolchains_in(entries: Seq<Entry>) -> Seq<Entry> {
    entries.filter(|entry: Entry| entry.is_toolchain)
}

/// Which toolchain an unpacked archive is taken for, or why it is taken for none.
pub open spec fn root_is(
    staging: Seq<char>,
    staging_is_toolchain: bool,
    entries: Result<Vec<Entry>, String>,
    res: Result<String, String>,
) -> bool {
    if staging_is_toolchain {
        res matches Ok(path) && path@ == staging
    } else {
        match (entries, res) {
            (Ok(entries), Ok(path)) => toolchains_in(entries@).len() == 1 && path@ == toolchains_in(
                entries@,
            )[0].path@,
            (Ok(entries), Err(_)) => toolchains_in(entries@).len() != 1,
            (Err(_), _) => res is Err,
        }
    }
}

/// The toolchain in an unpacked archive: the archive itself, or the only entry that is one.
pub fn find_toolchain_root(
    staging: &str,
    staging_is_toolchain: bool,
    entries: &Result<Vec<Entry>, String>,
) -> (res: Result<String, String>)
    ensures
        if staging_is_toolchain {
            res matches Ok(path) && path@ == staging@
        } else {
            match *entries {
                Err(error) => res matches Err(message) && message@ == "could not inspect "@ + staging@
                    + ": "@ + error@,
                Ok(entries) => {
                    let found = toolchains_in(entries@);
                    if found.len() == 1 {
                        res matches Ok(path) && path@ == found[0].path@
                    } else if found.len() == 0 {
                        res matches Err(message) && message@
                            == "downloaded archive does not contain an OpenHarmony LLVM toolchain"@
                    } else {
                        res matches Err(message) && message@
                            == "downloaded archive contains multiple OpenHarmony LLVM toolchains"@
                    }
                },
            }
        },
        root_is(staging@, staging_is_toolchain, *entries, res),
{
    if staging_is_toolchain {
        return Ok(staging.to_owned());
    }
    let entries = match entries {
        Ok(entries) => entries,
        Err(error) => return Err(cat4("could not inspect ", staging, ": ", error.as_str())),
    };
    let ghost fits = |entry: Entry| entry.is_toolchain;
    let mut only: Option<usize> = None;
    let mut several = false;
    let mut i: usize = 0;
    proof {
        reveal(Seq::filter);
        assert(entries@.take(0).filter(fits) =~= seq![]);
    }
    while i < entries.len()
        invariant
            i <= entries.len(),
            fits == (|entry: Entry| entry.is_toolchain),
            several == (entries@.take(i as int).filter(fits).len() > 1),
            match only {
                Some(k) => k < i && entries@.take(i as int).filter(fits).len() >= 1
                    && entries@.take(i as int).filter(fits)[0] == entries@[k as int],
                None => entries@.take(i as int).filter(fits).len() == 0,
            },
        decreases entries.len() - i,
    {
        proof {
            assert(entries@.take(i + 1).drop_last() =~= entries@.take(i as int));
            assert(entries@.take(i + 1).last() == entries@[i as int]);
            lemma_filter_last(entries@.take(i + 1), fits);
        }
        if entries[i].is_toolchain {
            if only.is_some() {
                several = true;
            } else {
                only = Some(i);
            }
        }
        i += 1;
    }
    proof {
        assert(entries@.take(i as int) =~= entries@);
    }
    match only {
        Some(k) => if several {
            Err("downloaded archive contains multiple OpenHarmony LLVM toolchains".to_owned())
        } else {
            Ok(entries[k].path.clone())
        },
        None => Err(
            "downloaded archive does not contain an OpenHarmony LLVM toolchain".to_owned(),
        ),
    }
}

/// Where an install of `selection` happens.
pub struct InstallPaths {
    pub lock: String,
    /// The directory the install is in.
    pub parent: String,
    /// The install itself.
    pub install: String,
    pub marker: String,
    /// The downloaded archive.
    pub archive: String,
    /// Where the archive is unpacked.
    pub staging: String,
}

/// The paths of an install below the cache directory `root`.
pub open spec fn paths_are(
    platform: Platform,
    root: Seq<char>,
    selection: Selection,
    paths: InstallPaths,
) -> bool {
    let name = selection.version@ + "-"@ + selection.host.id@;
    &&& paths.lock@ == joined_path(platform, root, name + ".lock"@)
    &&& paths.parent@ == joined_path(
        platform,
        joined_path(platform, root, selection.version@),
        selection.host.id@,
    )
    &&& paths.install@ == joined_path(platform, paths.parent@, "llvm"@)
    &&& paths.marker@ == joined_path(platform, paths.install@, ".cargo-ohos-complete"@)
    &&& paths.archive@ == joined_path(platform, root, ".download-"@ + name + ".tar.gz"@)
    &&& paths.staging@ == joined_path(platform, root, ".extract-"@ + name)
}

pub fn install_paths(platform: Platform, root: &str, selection: &Selection) -> (res: InstallPaths)
    ensures
        paths_are(platform, root@, *selection, res),
{
    let name = cat3(selection.version.as_str(), "-", selection.host.id);
    let parent = join2(platform, root, selection.version.as_str(), selection.host.id);
    let install = join(platform, parent.as_str(), "llvm");
    let marker = join(platform, install.as_str(), COMPLETE_MARKER);
    InstallPaths {
        lock: join(platform, root, cat2(name.as_str(), ".lock").as_str()),
        parent,
        install,
        marker,
        archive: join(platform, root, cat3(".download-", name.as_str(), ".tar.gz").as_str()),
        staging: join(platform, root, cat2(".extract-", name.as_str()).as_str()),
    }
}

/// What marks an install as complete: the archive it was made from.
pub open spec fn marker_of(selection: Selection) -> Seq<char> {
    selection.asset.name@ + "\n"@ + selection.sha256@ + "\n"@
}

/// What was seen so far during an install: the results of the steps, each recorded under the name
/// its step gives.
pub struct InstallSeen {
    pub root_created: Option<Result<(), String>>,
    pub locked: Option<Result<(), String>>,
    /// Whether the install looks like a toolchain, and the text of its marker, if it can be read.
    pub existing: Option<(bool, Option<String>)>,
    pub staging_cleared: Option<Result<(), String>>,
    pub archive_cleared: Option<Result<(), String>>,
    pub auth: Option<Outcome>,
    pub downloaded: Option<Result<(), String>>,
    pub verified: Option<Result<(), String>>,
    pub staging_created: Option<Result<(), String>>,
    pub extracted: Option<Result<(), String>>,
    /// The toolchain in the unpacked archive.
    pub found: Option<Result<String, String>>,
    pub parent_created: Option<Result<(), String>>,
    pub install_cleared: Option<Result<(), String>>,
    pub moved: Option<Result<(), String>>,
    pub marked: Option<Result<(), String>>,
    pub cleaned: bool,
}

/// What to do next during an install.
pub enum InstallStep {
    /// Create the directory and those above it: `root_created`.
    CreateRoot(String),
    /// Lock this file until the end: `locked`.
    Lock(String),
    /// Look for an install: `existing`.
    Inspect { install: String, marker: String },
    /// Remove the directory if it exists: `staging_cleared`.
    ClearStaging(String),
    /// Remove the file if it exists: `archive_cleared`.
    ClearArchive(String),
    /// Run this command: `auth`.
    Authenticate(Vec<String>),
    /// Print the note, and download the asset to this file; it has this digest: `downloaded`.
    Download { note: Option<String>, asset: Asset, path: String, expected: String },
    /// Verify that this workflow of the repository built the file from the ref: `verified`.
    Verify {
        path: String,
        repository: &'static str,
        workflow: &'static str,
        source_ref: &'static str,
    },
    /// Create the directory: `staging_created`.
    CreateStaging(String),
    /// Unpack the archive: `extracted`.
    Extract { archive: String, staging: String },
    /// Look for the toolchain: `found`.
    FindRoot(String),
    /// Create the directory and those above it: `parent_created`.
    CreateParent(String),
    /// Remove the directory if it exists: `install_cleared`.
    ClearInstall(String),
    /// Rename: `moved`.
    Move { from: String, to: String },
    /// Write the marker: `marked`.
    Mark { path: String, text: String },
    /// Remove what is left of the archive and of what was unpacked, whether or not that works:
    /// `cleaned`.
    CleanUp { archive: String, staging: String },
    /// Print the note, and end with the directory of the install.
    Done { note: Option<String>, result: Result<String, String> },
}

pub open spec fn install_fails(step: InstallStep, message: Seq<char>) -> bool {
    step matches InstallStep::Done { note: None, result: Err(error) } && error@ == message
}

pub open spec fn not_removed(path: String, error: String) -> Seq<char> {
    "could not remove "@ + path@ + ": "@ + error@
}

pub open spec fn not_created(path: String, error: String) -> Seq<char> {
    "could not create "@ + path@ + ": "@ + error@
}

/// The end of an install that got as far as the download: clean up, then report.
pub open spec fn install_ends(paths: InstallPaths, seen: InstallSeen, step: InstallStep) -> bool {
    !seen.cleaned ==> (step matches InstallStep::CleanUp { archive, staging } && archive@
        == paths.archive@ && staging@ == paths.staging@)
}

pub open spec fn install_breaks(
    paths: InstallPaths,
    seen: InstallSeen,
    step: InstallStep,
    message: Seq<char>,
) -> bool {
    install_ends(paths, seen, step) && (seen.cleaned ==> install_fails(step, message))
}

/// What follows once the toolchain was found in the archive.
pub open spec fn commit_step(
    selection: Selection,
    paths: InstallPaths,
    from: String,
    seen: InstallSeen,
    step: InstallStep,
) -> bool {
    match seen.parent_created {
        None => step matches InstallStep::CreateParent(path) && path@ == paths.parent@,
        Some(Err(error)) => install_breaks(paths, seen, step, not_created(paths.parent, error)),
        Some(Ok(_)) => match seen.install_cleared {
            None => step matches InstallStep::ClearInstall(path) && path@ == paths.install@,
            Some(Err(error)) => install_breaks(paths, seen, step, not_removed(paths.install, error)),
            Some(Ok(_)) => match seen.moved {
                None => step matches InstallStep::Move { from: source, to } && source@ == from@ && to@
                    == paths.install@,
                Some(Err(error)) => install_breaks(
                    paths,
                    seen,
                    step,
                    "could not install "@ + from@ + " as "@ + paths.install@ + ": "@ + error@,
                ),
                Some(Ok(_)) => match seen.marked {
                    None => step matches InstallStep::Mark { path, text } && path@ == paths.marker@
                        && text@ == marker_of(selection),
                    Some(Err(error)) => install_breaks(
                        paths,
                        seen,
                        step,
                        "could not mark "@ + paths.install@ + " complete: "@ + error@,
                    ),
                    Some(Ok(_)) => install_ends(paths, seen, step) && (seen.cleaned ==> (
                    step matches InstallStep::Done { note: None, result: Ok(dir) } && dir@
                        == paths.install@)),
                },
            },
        },
    }
}

/// What follows once the archive was downloaded and, if it could be, verified.
pub open spec fn unpack_step(
    selection: Selection,
    paths: InstallPaths,
    seen: InstallSeen,
    step: InstallStep,
) -> bool {
    match seen.staging_created {
        None => step matches InstallStep::CreateStaging(path) && path@ == paths.staging@,
        Some(Err(error)) => install_breaks(paths, seen, step, not_created(paths.staging, error)),
        Some(Ok(_)) => match seen.extracted {
            None => step matches InstallStep::Extract { archive, staging } && archive@
                == paths.archive@ && staging@ == paths.staging@,
            Some(Err(error)) => install_breaks(paths, seen, step, error@),
            Some(Ok(_)) => match seen.found {
                None => step matches InstallStep::FindRoot(path) && path@ == paths.staging@,
                Some(Err(error)) => install_breaks(paths, seen, step, error@),
                Some(Ok(from)) => commit_step(selection, paths, from, seen, step),
            },
        },
    }
}

/// The download, and the verification of the attestation if `gh` can be used.
pub open spec fn fetch_step(
    selection: Selection,
    paths: InstallPaths,
    note: Option<Seq<char>>,
    verify: bool,
    seen: InstallSeen,
    step: InstallStep,
) -> bool {
    match seen.downloaded {
        None => {
            &&& step matches InstallStep::Download { note: printed, asset, path, expected }
            &&& opt_text(printed) == note
            &&& asset == selection.asset
            &&& path@ == paths.archive@
            &&& expected@ == selection.sha256@
        },
        Some(Err(error)) => install_breaks(paths, seen, step, error@),
        Some(Ok(_)) => if verify {
            match seen.verified {
                None => {
                    &&& step matches InstallStep::Verify { path, repository, workflow, source_ref }
                    &&& path@ == paths.archive@
                    &&& repository@ == "openharmony-rs/ohos-llvm-toolchains"@
                    &&& workflow@
                        == "openharmony-rs/ohos-llvm-toolchains/.github/workflows/mirror.yml"@
                    &&& source_ref@ == "refs/heads/main"@
                },
                Some(Err(error)) => install_breaks(paths, seen, step, error@),
                Some(Ok(_)) => unpack_step(selection, paths, seen, step),
            }
        } else {
            unpack_step(selection, paths, seen, step)
        },
    }
}

/// What follows once an install was decided on.
pub open spec fn replace_step(
    selection: Selection,
    paths: InstallPaths,
    seen: InstallSeen,
    step: InstallStep,
) -> bool {
    match seen.staging_cleared {
        None => step matches InstallStep::ClearStaging(path) && path@ == paths.staging@,
        Some(Err(error)) => install_fails(step, not_removed(paths.staging, error)),
        Some(Ok(_)) => match seen.archive_cleared {
            None => step matches InstallStep::ClearArchive(path) && path@ == paths.archive@,
            Some(Err(error)) => install_fails(step, not_removed(paths.archive, error)),
            Some(Ok(_)) => match seen.auth {
                None => step matches InstallStep::Authenticate(command) && texts(command@)
                    == auth_command(),
                Some(Ok(output)) => if succeeded(output) {
                    fetch_step(selection, paths, None, true, seen, step)
                } else {
                    fetch_step(
                        selection,
                        paths,
                        Some(
                            "note: `gh` is not authenticated; skipping GitHub artifact attestation verification"@,
                        ),
                        false,
                        seen,
                        step,
                    )
                },
                Some(Err(error)) => if error.not_found {
                    fetch_step(
                        selection,
                        paths,
                        Some(
                            "note: `gh` is not installed; skipping GitHub artifact attestation verification"@,
                        ),
                        false,
                        seen,
                        step,
                    )
                } else {
                    install_fails(step, "could not run `gh auth status`: "@ + error.message@)
                },
            },
        },
    }
}

/// The step that follows `seen`: an install made from the same archive is used as it is.
pub open spec fn install_step(
    root: Seq<char>,
    selection: Selection,
    paths: InstallPaths,
    seen: InstallSeen,
    step: InstallStep,
) -> bool {
    match seen.root_created {
        None => step matches InstallStep::CreateRoot(path) && path@ == root,
        Some(Err(error)) => install_fails(step, "could not create "@ + root + ": "@ + error@),
        Some(Ok(_)) => match seen.locked {
            None => step matches InstallStep::Lock(path) && path@ == paths.lock@,
            Some(Err(error)) => install_fails(step, error@),
            Some(Ok(_)) => match seen.existing {
                None => step matches InstallStep::Inspect { install, marker } && install@
                    == paths.install@ && marker@ == paths.marker@,
                Some((looks_like_toolchain, marker)) => if looks_like_toolchain && opt_text(marker)
                    == Some(marker_of(selection)) {
                    &&& step matches InstallStep::Done { note: Some(note), result: Ok(dir) }
                    &&& dir@ == paths.install@
                    &&& note@ == "note: using cached OpenHarmony LLVM "@ + selection.version@
                        + " from "@ + paths.install@
                } else {
                    replace_step(selection, paths, seen, step)
                },
            },
        },
    }
}

fn fails(message: String) -> (res: InstallStep)
    ensures
        install_fails(res, message@),
{
    InstallStep::Done { note: None, result: Err(message) }
}

fn breaks(paths: &InstallPaths, seen: &InstallSeen, message: String) -> (res: InstallStep)
    ensures
        install_breaks(*paths, *seen, res, message@),
{
    if seen.cleaned {
        fails(message)
    } else {
        InstallStep::CleanUp { archive: paths.archive.clone(), staging: paths.staging.clone() }
    }
}

fn removal_failed(path: &String, error: &String) -> (res: String)
    ensures
        res@ == not_removed(*path, *error),
{
    cat4("could not remove ", path.as_str(), ": ", error.as_str())
}

fn creation_failed(path: &String, error: &String) -> (res: String)
    ensures
        res@ == not_created(*path, *error),
{
    cat4("could not create ", path.as_str(), ": ", error.as_str())
}

fn commit(selection: &Selection, paths: &InstallPaths, from: &String, seen: &InstallSeen) -> (res:
    InstallStep)
    ensures
        commit_step(*selection, *paths, *from, *seen, res),
{
    match &seen.parent_created {
        None => return InstallStep::CreateParent(paths.parent.clone()),
        Some(Err(error)) => return breaks(paths, seen, creation_failed(&paths.parent, error)),
        Some(Ok(_)) => {},
    }
    match &seen.install_cleared {
        None => return InstallStep::ClearInstall(paths.install.clone()),
        Some(Err(error)) => return breaks(paths, seen, removal_failed(&paths.install, error)),
        Some(Ok(_)) => {},
    }
    match &seen.moved {
        None => return InstallStep::Move { from: from.clone(), to: paths.install.clone() },
        Some(Err(error)) => {
            let message = cat6(
                "could not install ",
                from.as_str(),
                " as ",
                paths.install.as_str(),
                ": ",
                error.as_str(),
            );
            return breaks(paths, seen, message);
        },
        Some(Ok(_)) => {},
    }
    match &seen.marked {
        None => InstallStep::Mark {
            path: paths.marker.clone(),
            text: cat4(selection.asset.name.as_str(), "\n", selection.sha256.as_str(), "\n"),
        },
        Some(Err(error)) => {
            let message = cat4(
                "could not mark ",
                paths.install.as_str(),
                " complete: ",
                error.as_str(),
            );
            breaks(paths, seen, message)
        },
        Some(Ok(_)) => if seen.cleaned {
            InstallStep::Done { note: None, result: Ok(paths.install.clone()) }
        } else {
            InstallStep::CleanUp { archive: paths.archive.clone(), staging: paths.staging.clone() }
        },
    }
}

fn unpack(selection: &Selection, paths: &InstallPaths, seen: &InstallSeen) -> (res: InstallStep)
    ensures
        unpack_step(*selection, *paths, *seen, res),
{
    match &seen.staging_created {
        None => return InstallStep::CreateStaging(paths.staging.clone()),
        Some(Err(error)) => return breaks(paths, seen, creation_failed(&paths.staging, error)),
        Some(Ok(_)) => {},
    }
    match &seen.extracted {
        None => return InstallStep::Extract {
            archive: paths.archive.clone(),
            staging: paths.staging.clone(),
        },
        Some(Err(error)) => return breaks(paths, seen, error.clone()),
        Some(Ok(_)) => {},
    }
    match &seen.found {
        None => InstallStep::FindRoot(paths.staging.clone()),
        Some(Err(error)) => breaks(paths, seen, error.clone()),
        Some(Ok(from)) => commit(selection, paths, from, seen),
    }
}

fn fetch(
    selection: &Selection,
    paths: &InstallPaths,
    note: Option<String>,
    verify: bool,
    seen: &InstallSeen,
) -> (res: InstallStep)
    ensures
        fetch_step(*selection, *paths, opt_text(note), verify, *seen, res),
{
    match &seen.downloaded {
        None => return InstallStep::Download {
            note,
            asset: selection.asset.clone(),
            path: paths.archive.clone(),
            expected: selection.sha256.clone(),
        },
        Some(Err(error)) => return breaks(paths, seen, error.clone()),
        Some(Ok(_)) => {},
    }
    if verify {
        match &seen.verified {
            None => {
                let signer = prebuilt_signer();
                return InstallStep::Verify {
                    path: paths.archive.clone(),
                    repository: signer.repository,
                    workflow: signer.workflow,
                    source_ref: SOURCE_REF,
                };
            },
            Some(Err(error)) => return breaks(paths, seen, error.clone()),
            Some(Ok(_)) => {},
        }
    }
    unpack(selection, paths, seen)
}

fn replace(selection: &Selection, paths: &InstallPaths, seen: &InstallSeen) -> (res: InstallStep)
    ensures
        replace_step(*selection, *paths, *seen, res),
{
    match &seen.staging_cleared {
        None => return InstallStep::ClearStaging(paths.staging.clone()),
        Some(Err(error)) => return fails(removal_failed(&paths.staging, error)),
        Some(Ok(_)) => {},
    }
    match &seen.archive_cleared {
        None => return InstallStep::ClearArchive(paths.archive.clone()),
        Some(Err(error)) => return fails(removal_failed(&paths.archive, error)),
        Some(Ok(_)) => {},
    }
    let auth = match &seen.auth {
        None => {
            let command = argv(vec!["gh", "auth", "status", "--active", "--hostname", "github.com"]);
            proof {
                assert(texts(command@) =~= auth_command());
            }
            return InstallStep::Authenticate(command);
        },
        Some(outcome) => authentication(outcome),
    };
    match auth {
        Auth::Failed(message) => fails(message),
        Auth::Skipped(note) => fetch(selection, paths, Some(note), false, seen),
        Auth::Authenticated => fetch(selection, paths, None, true, seen),
    }
}

/// Install the selected toolchain into the cache directory `root`: the step that follows what was
/// seen so far.
pub fn install(platform: Platform, root: &str, selection: &Selection, seen: &InstallSeen) -> (res:
    InstallStep)
    ensures
        exists|paths: InstallPaths| #[trigger]
            paths_are(platform, root@, *selection, paths) && install_step(
                root@,
                *selection,
                paths,
                *seen,
                res,
            ),
{
    let paths = install_paths(platform, root, selection);
    match &seen.root_created {
        None => return InstallStep::CreateRoot(root.to_owned()),
        Some(Err(error)) => return fails(cat4("could not create ", root, ": ", error.as_str())),
        Some(Ok(_)) => {},
    }
    match &seen.locked {
        None => return InstallStep::Lock(paths.lock),
        Some(Err(error)) => return fails(error.clone()),
        Some(Ok(_)) => {},
    }
    let cached = match &seen.existing {
        None => return InstallStep::Inspect { install: paths.install, marker: paths.marker },
        Some((looks_like_toolchain, Some(text))) => {
            let marker = cat4(selection.asset.name.as_str(), "\n", selection.sha256.as_str(), "\n");
            *looks_like_toolchain && equal(text.as_str(), marker.as_str())
        },
        Some((_, None)) => false,
    };
    if cached {
        let note = cat4(
            "note: using cached OpenHarmony LLVM ",
            selection.version.as_str(),
            " from ",
            paths.install.as_str(),
        );
        return InstallStep::Done { note: Some(note), result: Ok(paths.install) };
    }
    replace(selection, &paths, seen)
}

/// An earlier install is not touched before the new toolchain is downloaded with the digest its
/// release gives, verified where `gh` can be used, and found in the archive; the new install is
/// marked only once it is in place.
pub proof fn law_installs_are_marked_last(
    root: Seq<char>,
    selection: Selection,
    paths: InstallPaths,
    seen: InstallSeen,
    step: InstallStep,
)
    requires
        install_step(root, selection, paths, seen, step),
    ensures
        step is ClearInstall || step is Move || step is Mark ==> (seen.locked matches Some(Ok(_))) && (
        seen.downloaded matches Some(Ok(_))) && (seen.found matches Some(Ok(_))) && ((
        seen.auth matches Some(Ok(output)) && succeeded(output)) ==> (
        seen.verified matches Some(Ok(_)))),
        step is Mark ==> (seen.install_cleared matches Some(Ok(_))) && (
        seen.moved matches Some(Ok(_))),
{
}

/// An install that succeeds is one of the selected archive: either its marker said so before, or the
/// marker that says so was written.
pub proof fn law_installs_are_of_the_selected_archive(
    root: Seq<char>,
    selection: Selection,
    paths: InstallPaths,
    seen: InstallSeen,
    step: InstallStep,
)
    requires
        install_step(root, selection, paths, seen, step),
        step matches InstallStep::Done { result: Ok(_), .. },
    ensures
        (seen.marked matches Some(Ok(_))) || (seen.existing matches Some((true, Some(text))) && text@
            == marker_of(selection)),
{
}

/// Installing what is installed does nothing: an install of the selected archive is used as it is.
pub proof fn law_installing_again_reuses(
    root: Seq<char>,
    selection: Selection,
    paths: InstallPaths,
    seen: InstallSeen,
    step: InstallStep,
)
    requires
        install_step(root, selection, paths, seen, step),
        seen.root_created matches Some(Ok(_)),
        seen.locked matches Some(Ok(_)),
        seen.existing matches Some((true, Some(text))) && text@ == marker_of(selection),
    ensures
        step matches InstallStep::Done { result: Ok(dir), .. } && dir@ == paths.install@,
{
}

/// What is downloaded is the asset selected, checked against its digest; and what is verified is that
/// the mirror's workflow, on its main branch, made it.
pub proof fn law_the_mirror_is_the_signer(
    root: Seq<char>,
    selection: Selection,
    paths: InstallPaths,
    seen: InstallSeen,
    step: InstallStep,
)
    requires
        install_step(root, selection, paths, seen, step),
    ensures
        step matches InstallStep::Download { note, asset, path, expected } ==> asset == selection.asset
            && expected@ == selection.sha256@ && path@ == paths.archive@,
        step matches InstallStep::Verify { path, repository, workflow, source_ref } ==> {
            &&& path@ == paths.archive@
            &&& repository@ == "openharmony-rs/ohos-llvm-toolchains"@
            &&& workflow@ == "openharmony-rs/ohos-llvm-toolchains/.github/workflows/mirror.yml"@
            &&& source_ref@ == "refs/heads/main"@
        },
        step matches InstallStep::Extract { archive, staging } ==> archive@ == paths.archive@,
{
}

/// Nothing is done twice: each step asks for something that was not seen yet, so that carrying out the
/// steps comes to an end.
pub proof fn law_every_step_is_new(
    root: Seq<char>,
    selection: Selection,
    paths: InstallPaths,
    seen: InstallSeen,
    step: InstallStep,
)
    requires
        install_step(root, selection, paths, seen, step),
    ensures
        step is CreateRoot ==> seen.root_created is None,
        step is Lock ==> seen.locked is None,
        step is Inspect ==> seen.existing is None,
        step is ClearStaging ==> seen.staging_cleared is None,
        step is ClearArchive ==> seen.archive_cleared is None,
        step is Authenticate ==> seen.auth is None,
        step is Download ==> seen.downloaded is None,
        step is Verify ==> seen.verified is None,
        step is CreateStaging ==> seen.staging_created is None,
        step is Extract ==> seen.extracted is None,
        step is FindRoot ==> seen.found is None,
        step is CreateParent ==> seen.parent_created is None,
        step is ClearInstall ==> seen.install_cleared is None,
        step is Move ==> seen.moved is None,
        step is Mark ==> seen.marked is None,
        step is CleanUp ==> !seen.cleaned,
{
}

/// What was seen last while getting a toolchain.
pub enum ResolveSeen {
    Nothing,
    /// The releases of the mirror.
    Releases(Result<Vec<Release>, String>),
    /// Where the selected toolchain is installed.
    Installed(Result<String, String>),
}

/// What to do next to get a toolchain.
pub enum ResolveStep {
    /// Get the releases listed at this address, by way of this cache directory: `Releases`.
    FetchReleases { url: &'static str, subdir: &'static str },
    /// Install what is selected: `Installed`.
    Install(Selection),
    Done(Result<String, String>),
}

/// The step that follows `seen`. A version that cannot be looked for is refused before anything is
/// fetched.
pub open spec fn resolve_step(
    requested: Seq<char>,
    os: Seq<char>,
    arch: Seq<char>,
    seen: ResolveSeen,
    step: ResolveStep,
) -> bool {
    if !safe_component(requested) {
        step matches ResolveStep::Done(Err(error)) && error@ == "invalid prebuilt LLVM version `"@
            + requested + "`; expected a version such as `19` or `19.1.4-79830f`"@
    } else {
        match seen {
            ResolveSeen::Nothing => {
                &&& step matches ResolveStep::FetchReleases { url, subdir }
                &&& url@
                    == "https://api.github.com/repos/openharmony-rs/ohos-llvm-toolchains/releases?per_page=100"@
                &&& subdir@ == "ohos-llvm"@
            },
            ResolveSeen::Releases(Err(error)) => step == ResolveStep::Done(Err(error)),
            ResolveSeen::Releases(Ok(releases)) => match step {
                ResolveStep::Install(selection) => select_is(
                    releases@,
                    requested,
                    os,
                    arch,
                    Ok(selection),
                ),
                ResolveStep::Done(Err(error)) => select_is(releases@, requested, os, arch, Err(error)),
                _ => false,
            },
            ResolveSeen::Installed(result) => step == ResolveStep::Done(result),
        }
    }
}

/// Where the newest toolchain release matching `requested` is installed: the step that follows what
/// was seen last.
pub fn resolve(requested: &str, os: &str, arch: &str, seen: ResolveSeen) -> (res: ResolveStep)
    ensures
        resolve_step(requested@, os@, arch@, seen, res),
{
    match validate_version(requested) {
        Ok(()) => {},
        Err(error) => return ResolveStep::Done(Err(error)),
    }
    match seen {
        ResolveSeen::Nothing => ResolveStep::FetchReleases { url: RELEASES_URL, subdir: CACHE_SUBDIR },
        ResolveSeen::Releases(Err(error)) => ResolveStep::Done(Err(error)),
        ResolveSeen::Releases(Ok(releases)) => match select(releases, requested, os, arch) {
            Ok(selection) => ResolveStep::Install(selection),
            Err(error) => ResolveStep::Done(Err(error)),
        },
        ResolveSeen::Installed(result) => ResolveStep::Done(result),
    }
}

} // verus!
