use cargo_ohos::download::{Asset, Release};
use cargo_ohos::path::Platform;
use cargo_ohos::prebuilt::{
    find_toolchain_root, host, install, prebuilt_signer, resolve, select, toolchain_directories,
    validate_version, Entry, InstallSeen, InstallStep, ResolveSeen, ResolveStep, Selection,
};
use cargo_ohos::process::{Outcome, Output, RunError};

fn release(tag: &str, asset_name: &str) -> Release {
    Release {
        tag_name: tag.to_owned(),
        draft: false,
        body: None,
        assets: vec![Asset {
            name: asset_name.to_owned(),
            browser_download_url: "https://example.invalid/toolchain.tar.gz".to_owned(),
            digest: Some(format!("sha256:{}", "a".repeat(64))),
            size: 1024,
        }],
    }
}

#[test]
fn maps_supported_hosts_to_release_assets() {
    assert_eq!(host("linux", "x86_64").unwrap().id, "linux-x86_64");
    assert_eq!(host("macos", "aarch64").unwrap().id, "darwin-arm64");
    assert_eq!(host("macos", "x86_64").unwrap().id, "darwin-x86_64");
    assert_eq!(host("windows", "x86_64").unwrap().id, "windows-x86_64");
    assert!(host("linux", "aarch64").is_none());
    assert_eq!(
        host("windows", "x86_64").unwrap().asset_prefix,
        "clang_windows-x86_64-"
    );
}

#[test]
fn selects_the_newest_matching_host_asset() {
    let releases = vec![
        release("toolchain-19.1.7-newer", "clang_darwin-arm64-newer.tar.gz"),
        release("toolchain-19.1.4-older", "clang_darwin-arm64-older.tar.gz"),
    ];
    let selected = select(releases, "19", "macos", "aarch64").unwrap();

    assert_eq!(selected.version, "19.1.7-newer");
    assert_eq!(selected.asset.name, "clang_darwin-arm64-newer.tar.gz");
    assert_eq!(selected.sha256, "a".repeat(64));
}

#[test]
fn rejects_assets_without_a_digest() {
    let mut release = release(
        "toolchain-19.1.4-79830f",
        "clang_linux-x86_64-79830f.tar.gz",
    );
    release.assets[0].digest = None;

    assert!(select(vec![release], "19", "linux", "x86_64").is_err());
}

#[test]
fn rejects_unsafe_requested_versions() {
    assert!(validate_version("").is_err());
    assert!(validate_version("../../19").is_err());
    assert!(validate_version("19/latest").is_err());
    assert!(validate_version("19.1.4-79830f").is_ok());
}

#[test]
fn a_toolchain_is_selected_and_installed() {
    let step = |requested: &str, seen: ResolveSeen| {
        match resolve(requested, "linux", "x86_64", seen) {
            ResolveStep::FetchReleases { url, subdir } => format!("fetch {url} {subdir}"),
            ResolveStep::Install(selection) => format!("install {}", selection.version),
            ResolveStep::Done(Ok(path)) => format!("done {path}"),
            ResolveStep::Done(Err(error)) => error,
        }
    };
    assert_eq!(
        step("19/latest", ResolveSeen::Nothing),
        "invalid prebuilt LLVM version `19/latest`; expected a version such as `19` or `19.1.4-79830f`"
    );
    assert_eq!(
        step("19", ResolveSeen::Nothing),
        "fetch https://api.github.com/repos/openharmony-rs/ohos-llvm-toolchains/releases?per_page=100 ohos-llvm"
    );
    let failed = || "failed".to_owned();
    assert_eq!(step("19", ResolveSeen::Releases(Err(failed()))), "failed");
    let releases = vec![release("toolchain-19.1.4", "clang_linux-x86_64-79830f.tar.gz")];
    assert_eq!(step("19", ResolveSeen::Releases(Ok(releases))), "install 19.1.4");
    let nothing = select(Vec::new(), "19", "linux", "x86_64").unwrap_err();
    assert_eq!(step("19", ResolveSeen::Releases(Ok(Vec::new()))), nothing);
    assert_eq!(step("19", ResolveSeen::Installed(Err(failed()))), "failed");
    assert_eq!(step("19", ResolveSeen::Installed(Ok("/t".to_owned()))), "done /t");
}

#[test]
fn toolchains_are_signed_by_the_mirror() {
    let signer = prebuilt_signer();
    assert_eq!(signer.repository, "openharmony-rs/ohos-llvm-toolchains");
    assert_eq!(
        signer.workflow,
        "openharmony-rs/ohos-llvm-toolchains/.github/workflows/mirror.yml"
    );
}

#[test]
fn unusable_toolchain_releases_are_reported() {
    let error = |releases, os| match select(releases, "19", os, "x86_64") {
        Ok(_) => panic!("selected"),
        Err(error) => error,
    };
    assert_eq!(
        error(vec![], "plan9"),
        "prebuilt OpenHarmony LLVM toolchains are not available for host plan9-x86_64"
    );
    assert_eq!(
        error(vec![], "linux"),
        "no prebuilt OpenHarmony LLVM release matches version `19`"
    );
    assert_eq!(
        error(vec![release("toolchain-19./x", "a")], "linux"),
        "release `toolchain-19./x` has an unsafe version name"
    );
    assert_eq!(
        error(vec![release("toolchain-19", "clang_linux-x86_64-1.zip")], "linux"),
        "release `toolchain-19` has no clang archive for host linux-x86_64"
    );
}

#[test]
fn extracts_and_finds_a_toolchain_root() {
    let entry = |path: &str, is_toolchain: bool| Entry {
        path: path.to_owned(),
        is_toolchain,
    };
    let find = |entries: Vec<Entry>| find_toolchain_root("/extracted", false, &Ok(entries));
    assert_eq!(
        find(vec![entry("/extracted/toolchain", true), entry("/extracted/doc", false)]),
        Ok("/extracted/toolchain".to_owned())
    );
    assert_eq!(
        find_toolchain_root("/extracted", true, &Ok(Vec::new())),
        Ok("/extracted".to_owned())
    );
    assert!(find(vec![entry("/extracted/doc", false)])
        .unwrap_err()
        .contains("does not contain"));
    assert!(find(vec![entry("/a", true), entry("/b", true), entry("/c", true)])
        .unwrap_err()
        .contains("contains multiple"));
    assert_eq!(
        find_toolchain_root("/extracted", false, &Err("denied".to_owned())),
        Err("could not inspect /extracted: denied".to_owned())
    );
    assert_eq!(
        toolchain_directories(Platform::Linux, "/t"),
        ["/t/bin", "/t/include/libcxx-ohos"]
    );
}

fn ran(code: i32) -> Outcome {
    Ok(Output {
        code: Some(code),
        stdout: Vec::new(),
        stderr: Vec::new(),
    })
}

fn selection() -> Selection {
    select(
        vec![release("toolchain-19.1.4", "clang_linux-x86_64-19.tar.gz")],
        "19",
        "linux",
        "x86_64",
    )
    .unwrap()
}

/// Carries out an install in which the step called `broken` fails with `boom`; the result is its end
/// and the steps taken.
fn run_install(
    existing: (bool, Option<String>),
    auth: Outcome,
    broken: &str,
) -> (Result<String, String>, Vec<String>) {
    let mut auth = Some(auth);
    let mut seen = InstallSeen {
        root_created: None,
        locked: None,
        existing: None,
        staging_cleared: None,
        archive_cleared: None,
        auth: None,
        downloaded: None,
        verified: None,
        staging_created: None,
        extracted: None,
        found: None,
        parent_created: None,
        install_cleared: None,
        moved: None,
        marked: None,
        cleaned: false,
    };
    let mut taken = Vec::new();
    let answer = |name: &str| {
        if name == broken {
            Err("boom".to_owned())
        } else {
            Ok(())
        }
    };
    loop {
        match install(Platform::Linux, "/cache", &selection(), &seen) {
            InstallStep::CreateRoot(path) => {
                taken.push(format!("root {path}"));
                seen.root_created = Some(answer("root"));
            }
            InstallStep::Lock(path) => {
                taken.push(format!("lock {path}"));
                seen.locked = Some(answer("lock"));
            }
            InstallStep::Inspect { install, marker } => {
                taken.push(format!("inspect {install} {marker}"));
                seen.existing = Some(existing.clone());
            }
            InstallStep::ClearStaging(path) => {
                taken.push(format!("clear {path}"));
                seen.staging_cleared = Some(answer("clear staging"));
            }
            InstallStep::ClearArchive(path) => {
                taken.push(format!("clear {path}"));
                seen.archive_cleared = Some(answer("clear archive"));
            }
            InstallStep::Authenticate(command) => {
                taken.push(command.join(" "));
                seen.auth = auth.take();
            }
            InstallStep::Download {
                note,
                asset,
                path,
                expected,
            } => {
                assert_eq!(expected, "a".repeat(64));
                assert_eq!(asset.browser_download_url, selection().asset.browser_download_url);
                taken.push(format!("download {path} {}", note.unwrap_or_default()));
                seen.downloaded = Some(answer("download"));
            }
            InstallStep::Verify {
                path,
                repository,
                workflow,
                source_ref,
            } => {
                taken.push(format!("verify {path} {repository} {workflow} {source_ref}"));
                seen.verified = Some(answer("verify"));
            }
            InstallStep::CreateStaging(path) => {
                taken.push(format!("create {path}"));
                seen.staging_created = Some(answer("create staging"));
            }
            InstallStep::Extract { archive, staging } => {
                taken.push(format!("extract {archive} {staging}"));
                seen.extracted = Some(answer("extract"));
            }
            InstallStep::FindRoot(path) => {
                taken.push(format!("find {path}"));
                seen.found = Some(answer("find").map(|()| format!("{path}/llvm-19")));
            }
            InstallStep::CreateParent(path) => {
                taken.push(format!("create {path}"));
                seen.parent_created = Some(answer("create parent"));
            }
            InstallStep::ClearInstall(path) => {
                taken.push(format!("clear {path}"));
                seen.install_cleared = Some(answer("clear install"));
            }
            InstallStep::Move { from, to } => {
                taken.push(format!("move {from} {to}"));
                seen.moved = Some(answer("move"));
            }
            InstallStep::Mark { path, text } => {
                assert_eq!(text, format!("clang_linux-x86_64-19.tar.gz\n{}\n", "a".repeat(64)));
                taken.push(format!("mark {path}"));
                seen.marked = Some(answer("mark"));
            }
            InstallStep::CleanUp { archive, staging } => {
                taken.push(format!("clean {archive} {staging}"));
                seen.cleaned = true;
            }
            InstallStep::Done { result, .. } => return (result, taken),
        }
    }
}

#[test]
fn a_toolchain_is_verified_installed_and_marked_last() {
    let (result, taken) = run_install((false, None), ran(0), "");
    let install = "/cache/19.1.4/linux-x86_64/llvm";
    let archive = "/cache/.download-19.1.4-linux-x86_64.tar.gz";
    let staging = "/cache/.extract-19.1.4-linux-x86_64";
    assert_eq!(result.unwrap(), install);
    assert_eq!(
        taken,
        [
            "root /cache".to_owned(),
            "lock /cache/19.1.4-linux-x86_64.lock".to_owned(),
            format!("inspect {install} {install}/.cargo-ohos-complete"),
            format!("clear {staging}"),
            format!("clear {archive}"),
            "gh auth status --active --hostname github.com".to_owned(),
            format!("download {archive} "),
            format!(
                "verify {archive} openharmony-rs/ohos-llvm-toolchains openharmony-rs/ohos-llvm-toolchains/.github/workflows/mirror.yml refs/heads/main"
            ),
            format!("create {staging}"),
            format!("extract {archive} {staging}"),
            format!("find {staging}"),
            "create /cache/19.1.4/linux-x86_64".to_owned(),
            format!("clear {install}"),
            format!("move {staging}/llvm-19 {install}"),
            format!("mark {install}/.cargo-ohos-complete"),
            format!("clean {archive} {staging}"),
        ]
    );
}

#[test]
fn a_cached_toolchain_is_used_if_its_marker_agrees() {
    let marker = format!("clang_linux-x86_64-19.tar.gz\n{}\n", "a".repeat(64));
    let (result, taken) = run_install((true, Some(marker.clone())), ran(0), "");
    assert!(result.is_ok());
    assert_eq!(taken.len(), 3);
    let (_, taken) = run_install((false, Some(marker)), ran(0), "");
    assert_eq!(taken.len(), 16);
    let (_, taken) = run_install((true, Some("other".to_owned())), ran(1), "");
    assert!(taken[6].contains("`gh` is not authenticated"));
    assert_eq!(taken.len(), 15);
}

#[test]
fn a_failing_toolchain_install_cleans_up_and_is_reported() {
    for (broken, message, cleans) in [
        ("root", "could not create /cache: boom", false),
        ("lock", "boom", false),
        ("clear staging", "could not remove /cache/.extract-19.1.4-linux-x86_64: boom", false),
        (
            "clear archive",
            "could not remove /cache/.download-19.1.4-linux-x86_64.tar.gz: boom",
            false,
        ),
        ("download", "boom", true),
        ("verify", "boom", true),
        ("create staging", "could not create /cache/.extract-19.1.4-linux-x86_64: boom", true),
        ("extract", "boom", true),
        ("find", "boom", true),
        ("create parent", "could not create /cache/19.1.4/linux-x86_64: boom", true),
        ("clear install", "could not remove /cache/19.1.4/linux-x86_64/llvm: boom", true),
        (
            "move",
            "could not install /cache/.extract-19.1.4-linux-x86_64/llvm-19 as /cache/19.1.4/linux-x86_64/llvm: boom",
            true,
        ),
        ("mark", "could not mark /cache/19.1.4/linux-x86_64/llvm complete: boom", true),
    ] {
        let (result, taken) = run_install((false, None), ran(0), broken);
        assert_eq!(result.unwrap_err(), message);
        assert_eq!(taken.last().unwrap().starts_with("clean "), cleans, "{broken}");
    }
    let denied = Err(RunError {
        not_found: false,
        message: "denied".to_owned(),
    });
    let (result, _) = run_install((false, None), denied, "");
    assert_eq!(result.unwrap_err(), "could not run `gh auth status`: denied");
}
