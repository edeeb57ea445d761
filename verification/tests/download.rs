use cargo_ohos::download::{
    cache_is_fresh, cache_root_with, is_safe_component, releases, request_headers, resource_exists,
    select_release, sha256_digest, version_key, version_matches, versions, Asset, Release, ReleasesSeen,
    ReleasesStep, Transfer,
};
use cargo_ohos::ordered::StringMap;
use cargo_ohos::path::{join, Platform};

fn release(tag: &str) -> Release {
    Release {
        tag_name: tag.to_owned(),
        draft: false,
        body: None,
        assets: Vec::new(),
    }
}

fn asset(name: &str, digest: Option<&str>) -> Asset {
    Asset {
        name: name.to_owned(),
        browser_download_url: format!("https://example.invalid/{name}"),
        digest: digest.map(str::to_owned),
        size: 1,
    }
}

fn variables(list: &[(&str, &str)]) -> StringMap {
    let mut env = StringMap::new();
    for (name, value) in list {
        env.insert(name.to_string(), value.to_string());
    }
    env
}

#[test]
fn prefers_an_exact_version_over_a_newer_prefix_match() {
    let releases = || vec![release("v6.1"), release("v6.0.0.1"), release("v6.0")];

    let (release, version) = select_release(releases(), "v", "6.0").unwrap();
    assert_eq!(release.tag_name, "v6.0");
    assert_eq!(version, "6.0");

    let (release, _) = select_release(releases(), "v", "6.0.0").unwrap();
    assert_eq!(release.tag_name, "v6.0.0.1");

    assert!(select_release(releases(), "v", "6.2").is_none());
}

#[test]
fn skips_drafts_and_foreign_tags() {
    let mut draft = release("v6.1");
    draft.draft = true;
    let releases = vec![draft, release("toolchain-6.1"), release("v6.1.0")];

    let (release, _) = select_release(releases, "v", "6.1").unwrap();
    assert_eq!(release.tag_name, "v6.1.0");
}

#[test]
fn version_prefixes_match_at_component_boundaries() {
    assert!(version_matches("19", "19.1.4-79830f"));
    assert!(version_matches("19.1.4", "19.1.4-79830f"));
    assert!(version_matches("19.1.4-79830f", "19.1.4-79830f"));
    assert!(!version_matches("19", "190.0.0"));
    assert!(!version_matches("19.1.5", "19.1.4-79830f"));
}

#[test]
fn uses_shared_platform_cache_directories() {
    let root = |subdir: &str, os: &str, list: &[(&str, &str)]| {
        cache_root_with(Platform::Linux, subdir, os, &variables(list))
    };
    let base = "/tmp/cargo-ohos-cache-root-test";
    let xdg_cache = join(Platform::Linux, base, "xdg-cache");
    let linux_home = join(Platform::Linux, base, "linux-home");
    let macos_home = join(Platform::Linux, base, "macos-home");
    let local_app_data = join(Platform::Linux, base, "local-app-data");

    assert_eq!(
        root("ohos-llvm", "linux", &[("XDG_CACHE_HOME", &xdg_cache)]),
        join(Platform::Linux, &xdg_cache, "cargo-ohos/ohos-llvm")
    );
    assert_eq!(
        root("ohos-llvm", "linux", &[("HOME", &linux_home)]),
        join(Platform::Linux, &linux_home, ".cache/cargo-ohos/ohos-llvm")
    );
    assert_eq!(
        root("ohos-sdk", "macos", &[("HOME", &macos_home)]),
        join(Platform::Linux, &macos_home, "Library/Caches/cargo-ohos/ohos-sdk")
    );
    assert_eq!(
        root("ohos-sdk", "windows", &[("LOCALAPPDATA", &local_app_data)]),
        join(Platform::Linux, &local_app_data, "cargo-ohos/ohos-sdk")
    );
}

#[test]
fn falls_back_to_the_project_cache_without_an_absolute_user_cache() {
    let root = cache_root_with(
        Platform::Linux,
        "ohos-llvm",
        "linux",
        &variables(&[("XDG_CACHE_HOME", "relative-cache"), ("CARGO_TARGET_DIR", "custom-target")]),
    );

    assert_eq!(root, "custom-target/ohos-llvm");
}

#[test]
fn an_absolute_cache_home_takes_precedence_on_every_platform() {
    let list = [
        ("XDG_CACHE_HOME", "/xdg"),
        ("HOME", "/home/me"),
        ("LOCALAPPDATA", "/local"),
    ];
    for os in ["linux", "macos", "windows"] {
        assert_eq!(
            cache_root_with(Platform::Linux, "s", os, &variables(&list)),
            "/xdg/cargo-ohos/s"
        );
        assert_eq!(cache_root_with(Platform::Linux, "s", os, &variables(&[])), "target/s");
    }
}

#[test]
fn versions_are_listed_newest_first() {
    let listed: Vec<String> = versions(
        vec![
            release("v6.0"),
            release("v6.0.0.1-Beta1"),
            release("v10.0"),
            release("v6.0.0.1"),
            release("x7"),
        ],
        "v",
    )
    .into_iter()
    .map(|(_, version)| version)
    .collect();
    // Equal versions keep their order.
    assert_eq!(listed, ["10.0", "6.0.0.1-Beta1", "6.0.0.1", "6.0"]);
    assert_eq!(version_key("6.0.1.112-rc2"), [6, 0, 1, 112]);
    assert_eq!(version_key("beta"), Vec::<u64>::new());
}

#[test]
fn safe_components_hold_no_separators() {
    for safe in ["6.0.0.1", "19.1.4-79830f", "a_b", ".."] {
        assert!(is_safe_component(safe), "{safe}");
    }
    for unsafe_name in ["", "../x", "a/b", r"a\b", "a b", "\u{e9}"] {
        assert!(!is_safe_component(unsafe_name), "{unsafe_name}");
    }
    assert_eq!(join(Platform::Linux, "/cache", "6.0"), "/cache/6.0");
}

#[test]
fn only_well_formed_digests_are_taken() {
    let digest = format!("sha256:{}", "A".repeat(64));
    assert_eq!(
        sha256_digest(&asset("a", Some(&digest))),
        Some("a".repeat(64))
    );
    assert_eq!(sha256_digest(&asset("a", Some("sha512:00"))), None);
    assert_eq!(sha256_digest(&asset("a", Some("sha256:00"))), None);
    assert_eq!(sha256_digest(&asset("a", None)), None);
}

#[test]
fn a_transfer_checks_the_digest_of_all_its_parts() {
    let expected = "b94d27b9934d3e08a52e52d7da7dabfac484efe37a5380ee9088f7ace2efcde9";
    let parts = vec![asset("x.aa", None), asset("x.ab", None)];

    let mut transfer = Transfer::new();
    transfer.receive(b"hello ");
    transfer.receive(b"");
    transfer.receive(b"world");
    assert!(transfer.finish(&parts, expected).is_ok());

    let mut reordered = Transfer::new();
    reordered.receive(b"world");
    reordered.receive(b"hello ");
    let error = reordered.finish(&parts, expected).unwrap_err();
    assert!(error.starts_with("SHA-256 mismatch for `x.aa` + `x.ab`: expected b94d27"), "{error}");
}

#[test]
fn the_token_is_only_sent_to_the_api() {
    let token = Some("secret-value".to_owned());
    let headers = |url: &str, token: &Option<String>| {
        request_headers(url, token, "0.3.2")
            .into_iter()
            .map(|(name, value)| format!("{name}: {value}"))
            .collect::<Vec<_>>()
    };
    let plain = [
        "User-Agent: cargo-ohos/0.3.2",
        "Accept: application/vnd.github+json",
        "X-GitHub-Api-Version: 2022-11-28",
    ];
    assert_eq!(headers("https://github.com/x", &token), plain);
    assert_eq!(headers("https://api.github.com.evil/x", &token), plain);
    assert_eq!(headers("https://api.github.com/x", &None), plain);
    assert_eq!(headers("https://api.github.com/x", &Some(String::new())), plain);
    assert_eq!(
        headers("https://api.github.com/x", &token)[3],
        "Authorization: Bearer secret-value"
    );
}

#[test]
fn a_missing_resource_is_not_an_error() {
    let url = "https://api.github.com/x";
    assert_eq!(resource_exists(url, &Ok(200)), Ok(true));
    assert_eq!(resource_exists(url, &Ok(404)), Ok(false));
    assert_eq!(
        resource_exists(url, &Ok(403)),
        Err("request to https://api.github.com/x failed: http status: 403".to_owned())
    );
    assert_eq!(
        resource_exists(url, &Err("timeout".to_owned())),
        Err("request to https://api.github.com/x failed: timeout".to_owned())
    );
}

#[test]
fn metadata_is_fresh_for_an_hour() {
    assert!(cache_is_fresh(Some((3599, 999_999_999))));
    assert!(cache_is_fresh(Some((3600, 0))));
    assert!(!cache_is_fresh(Some((3600, 1))));
    assert!(!cache_is_fresh(None));
}

fn nothing_seen() -> ReleasesSeen {
    ReleasesSeen {
        created: None,
        locked: None,
        age: None,
        cached: None,
        fetched: None,
        parsed: None,
        written: None,
    }
}

/// Walks through the steps with the given answers; the result is the last step and the steps taken.
fn walk(
    age: Option<(u64, u32)>,
    cached: bool,
    fetched: Result<(), String>,
    parsed: Result<(), String>,
    written: Result<(), String>,
) -> (ReleasesStep, Vec<String>) {
    let mut seen = nothing_seen();
    let mut taken = Vec::new();
    loop {
        match releases(Platform::Linux, "/cache", "https://u", &seen) {
            ReleasesStep::CreateDirectory(path) => {
                taken.push(format!("create {path}"));
                seen.created = Some(Ok(()));
            }
            ReleasesStep::Lock(path) => {
                taken.push(format!("lock {path}"));
                seen.locked = Some(Ok(()));
            }
            ReleasesStep::Age(path) => {
                taken.push(format!("age {path}"));
                seen.age = Some(age);
            }
            ReleasesStep::ReadCached(path) => {
                taken.push(format!("read {path}"));
                seen.cached = Some(cached);
            }
            ReleasesStep::Fetch(url) => {
                taken.push(format!("fetch {url}"));
                seen.fetched = Some(fetched.clone().map(|()| "[json]".to_owned()));
            }
            ReleasesStep::Parse(text) => {
                taken.push(format!("parse {text}"));
                seen.parsed = Some(parsed.clone());
            }
            ReleasesStep::Write { path, text } => {
                taken.push(format!("write {path} {text}"));
                seen.written = Some(written.clone());
            }
            last => return (last, taken),
        }
    }
}

#[test]
fn fresh_metadata_is_not_fetched_again() {
    let (last, taken) = walk(Some((10, 0)), true, Ok(()), Ok(()), Ok(()));
    assert!(matches!(last, ReleasesStep::UseCached(None)));
    assert_eq!(
        taken,
        [
            "create /cache",
            "lock /cache/releases.lock",
            "age /cache/releases.json",
            "read /cache/releases.json"
        ]
    );
}

#[test]
fn stale_metadata_is_fetched_and_cached() {
    let (last, taken) = walk(Some((4000, 0)), true, Ok(()), Ok(()), Ok(()));
    assert!(matches!(last, ReleasesStep::UseFetched));
    assert_eq!(
        taken[3..],
        ["fetch https://u", "parse [json]", "write /cache/releases.json [json]"]
    );
    let (last, taken) = walk(Some((10, 0)), false, Ok(()), Ok(()), Ok(()));
    assert!(matches!(last, ReleasesStep::UseFetched));
    assert_eq!(taken.len(), 7);
}

#[test]
fn a_failing_network_falls_back_to_the_cache() {
    let (last, _) = walk(None, true, Err("no network".to_owned()), Ok(()), Ok(()));
    match last {
        ReleasesStep::UseCached(Some(warning)) => assert_eq!(
            warning,
            "warning: no network; using cached GitHub release metadata from /cache/releases.json"
        ),
        _ => panic!("the cache was not used"),
    }
    let (last, _) = walk(None, false, Err("no network".to_owned()), Ok(()), Ok(()));
    assert!(matches!(last, ReleasesStep::Fail(message) if message == "no network"));
}

#[test]
fn broken_metadata_and_a_full_disk_are_reported() {
    let (last, _) = walk(None, true, Ok(()), Err("eof".to_owned()), Ok(()));
    assert!(
        matches!(last, ReleasesStep::Fail(message) if message == "invalid release metadata from https://u: eof")
    );
    let (last, _) = walk(None, true, Ok(()), Ok(()), Err("full".to_owned()));
    assert!(
        matches!(last, ReleasesStep::Fail(message) if message == "could not write /cache/releases.json: full")
    );
    let mut seen = nothing_seen();
    seen.created = Some(Err("denied".to_owned()));
    assert!(
        matches!(releases(Platform::Linux, "/cache", "u", &seen), ReleasesStep::Fail(message) if message == "could not create /cache: denied")
    );
}
