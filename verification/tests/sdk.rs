use cargo_ohos::build_env::Error;
use cargo_ohos::download::{Asset, Release, COMPLETE_MARKER};
use cargo_ohos::ordered::StringMap;
use cargo_ohos::path::Platform;
use cargo_ohos::process::{Outcome, Output, RunError};
use cargo_ohos::sdk::components::{Components, ALL_COMPONENTS, COMPONENTS};
use cargo_ohos::sdk::discovery::{cache_paths, newest_complete};
use cargo_ohos::sdk::extract::{
    component_host, component_name, extract_components, ExtractSeen, ExtractStep, HostFilter, UnpackError,
};
use cargo_ohos::sdk::fetch::{fetch_and_verify_archive, requires_attestation, FetchSeen, FetchStep};
use cargo_ohos::sdk::install::{
    existing_install, install, install_paths, selection_marker, InstallSeen, InstallStep,
};
use cargo_ohos::sdk::release::{
    api_level, available, host_archive_name, is_archive_part, os_dir_name, select, select_by_api, Request,
    Selection,
};
use cargo_ohos::sdk::{
    read_metadata, sdk_paths, ApiValue, CacheEntry, CandidateSeen, CandidateStep, DiscoverStep, Discovery,
    DiscoverySeen, DownloadSeen, DownloadStep, Probe, Sdk, SdkEntry, UniPackage,
};

fn release(tag: &str, assets: &[&str]) -> Release {
    Release {
        tag_name: tag.to_owned(),
        draft: false,
        body: None,
        assets: assets
            .iter()
            .map(|name| Asset {
                name: name.to_string(),
                browser_download_url: format!("https://example.invalid/{name}"),
                digest: None,
                size: 1024,
            })
            .collect(),
    }
}

fn components(names: &[&str]) -> Components {
    Components::new(names.iter().map(|name| name.to_string()).collect())
}

fn probe(native_root: &str, api_version: Option<ApiValue>, version: Option<&str>) -> Probe {
    Probe {
        native_root: native_root.to_owned(),
        llvm_bin_is_dir: true,
        sysroot_is_dir: true,
        cmake_is_file: false,
        cmake_toolchain_file_is_file: false,
        package: if api_version.is_some() || version.is_some() {
            Some(UniPackage {
                api_version,
                version: version.map(str::to_owned),
            })
        } else {
            None
        },
    }
}

fn some_selection() -> Selection {
    select(
        vec![release(
            "v6.0",
            &[
                "ohos-sdk-windows_linux-public.tar.gz.aa",
                "ohos-sdk-windows_linux-public.tar.gz.ab",
                "ohos-sdk-windows_linux-public.tar.gz.sha256",
            ],
        )],
        &Request::Version("6.0".to_owned()),
        "linux",
        "x86_64",
    )
    .unwrap_or_else(|error| panic!("{error}"))
}

/// Loads a candidate from a disk that holds just the given SDKs; the second part is what was tried.
fn candidate(path: &str, disk: &[Sdk]) -> (Option<Sdk>, Vec<String>) {
    let mut seen = CandidateSeen {
        loads: Vec::new(),
        entries: None,
    };
    let mut taken = Vec::new();
    loop {
        match Sdk::from_candidate(Platform::Linux, path, &seen) {
            CandidateStep::Load(root) => {
                seen.loads.push(disk.iter().find(|sdk| sdk.native_root == root).cloned());
                taken.push(root);
            }
            CandidateStep::List(dir) => {
                let names: Vec<String> = disk
                    .iter()
                    .filter_map(|sdk| sdk.native_root.strip_prefix(&format!("{dir}/")))
                    .filter_map(|rest| rest.split('/').next())
                    .map(str::to_owned)
                    .collect();
                let entries = names
                    .into_iter()
                    .map(|name| SdkEntry {
                        has_native: disk
                            .iter()
                            .any(|sdk| sdk.native_root == format!("{dir}/{name}/native")),
                        name,
                    })
                    .collect();
                seen.entries = Some(if dir == "/nowhere" { None } else { Some(entries) });
                taken.push(format!("list {dir}"));
            }
            CandidateStep::Done(result) => return (result, taken),
        }
    }
}

#[test]
fn the_places_a_candidate_may_stand_for_are_tried_in_turn() {
    let sdk = |native: &str| Sdk::load(Platform::Linux, &probe(native, None, None)).unwrap();
    let disk = [
        sdk("/a"),
        sdk("/a/native"),
        sdk("/b/native"),
        sdk("/b/9/native"),
        sdk("/c/9/native"),
        sdk("/c/default/native"),
        sdk("/c/20/native"),
    ];
    let found = |path: &str| {
        let (result, taken) = candidate(path, &disk);
        (result.map(|sdk| sdk.native_root), taken.len())
    };
    assert_eq!(found("/a"), (Some("/a".to_owned()), 1));
    assert_eq!(found("/b"), (Some("/b/native".to_owned()), 2));
    let (result, taken) = candidate("/c", &disk);
    assert_eq!(result.unwrap().native_root, "/c/20/native");
    assert_eq!(
        taken,
        ["/c", "/c/native", "/c/default/openharmony/native", "list /c", "/c/20/native"]
    );
    assert_eq!(found("/d"), (None, 4));
    assert_eq!(found("/nowhere"), (None, 4));

    // What is found in a directory of SDKs may still not be one.
    let seen = CandidateSeen {
        loads: vec![None, None, None, None],
        entries: Some(Some(vec![SdkEntry {
            name: "20".to_owned(),
            has_native: true,
        }])),
    };
    assert!(matches!(
        Sdk::from_candidate(Platform::Linux, "/e", &seen),
        CandidateStep::Done(None)
    ));
}

#[test]
fn finds_native_sdk_in_deveco_sdk_home() {
    let native = "/root/default/openharmony/native";
    let loaded = Sdk::load(Platform::Linux, &probe(native, None, None)).unwrap();

    let sdk = candidate("/root", &[loaded]).0.unwrap();

    assert_eq!(sdk.native_root, native);
    assert_eq!(sdk.api_version, None);
    assert_eq!(sdk.version, None);
}

#[test]
fn picks_the_newest_completed_install_from_the_cache() {
    let host = os_dir_name("linux");
    let install = |release: &str, api: u64, version: &str, complete: bool| {
        let paths = cache_paths(Platform::Linux, "/cache", release, "linux");
        assert_eq!(paths.base, format!("/cache/{release}/{host}"));
        assert_eq!(paths.marker, format!("/cache/{release}/{host}/{COMPLETE_MARKER}"));
        let native = format!("{}/{api}/native", paths.base);
        let api = Some(ApiValue::Text(api.to_string()));
        let sdk = Sdk::load(Platform::Linux, &probe(&native, api, Some(version))).unwrap();
        CacheEntry {
            complete,
            sdk: candidate(&paths.base, &[sdk]).0,
        }
    };
    let mut installs = vec![
        install("5.1.0", 18, "5.1.0.107", true),
        // Two releases can provide the same API level; the newer SDK wins.
        install("6.0.0.1", 20, "6.0.0.48", true),
        install("6.0", 20, "6.0.0.47", true),
        // An interrupted install is not a usable SDK.
        install("7.0", 26, "26.0.0.38", false),
    ];

    let sdk = Sdk::from_cache(&installs).unwrap();

    assert!(sdk
        .native_root
        .ends_with(&format!("6.0.0.1/{host}/20/native")));
    assert!(Sdk::from_cache(&Vec::new()).is_none());
    assert_eq!(newest_complete(&installs), Some(1));
    installs[3].complete = true;
    assert_eq!(newest_complete(&installs), Some(3));
    installs[3].sdk = None;
    assert_eq!(newest_complete(&installs), Some(1));

    // One that does not say its API level comes last, whatever its version.
    installs.push(CacheEntry {
        complete: true,
        sdk: Sdk::load(Platform::Linux, &probe("/x", None, Some("99.0"))),
    });
    assert_eq!(newest_complete(&installs), Some(1));
    // Of two that are equally new it is the last.
    installs.push(install("6.0.0.48", 20, "6.0.0.48", true));
    assert_eq!(newest_complete(&installs), Some(5));
    assert_eq!(newest_complete(&vec![install("7.0", 26, "26.0.0.38", false)]), None);
}

#[test]
fn an_install_is_found_where_it_was_put() {
    let installed = install_paths(Platform::Linux, "/cache", &some_selection());
    let looked_for = cache_paths(Platform::Linux, "/cache", "6.0", "linux");
    assert_eq!(installed.base, "/cache/6.0/linux");
    assert_eq!(looked_for.base, installed.base);
    assert_eq!(looked_for.marker, installed.marker);
    let native = format!("{}/20/native", installed.base);
    let sdk = Sdk::load(Platform::Linux, &probe(&native, None, None)).unwrap();
    let found = candidate(&looked_for.base, &[sdk]).0.unwrap();
    assert_eq!(found.native_root, native);
}

#[test]
fn parses_sdk_metadata() {
    let package = UniPackage {
        api_version: Some(ApiValue::Text("21".to_owned())),
        version: Some("6.0.1.112".to_owned()),
    };
    let (api_version, version) = read_metadata(&Some(package));

    assert_eq!(api_version, Some(21));
    assert_eq!(version.as_deref(), Some("6.0.1.112"));

    let level = |value: ApiValue| {
        read_metadata(&Some(UniPackage {
            api_version: Some(value),
            version: None,
        }))
        .0
    };
    assert_eq!(level(ApiValue::Text(" 12 ".to_owned())), Some(12));
    assert_eq!(level(ApiValue::Text("twelve".to_owned())), None);
    assert_eq!(level(ApiValue::Number(13)), Some(13));
    assert_eq!(level(ApiValue::Number(1 << 32)), None);
    assert_eq!(level(ApiValue::Other), None);
    assert_eq!(read_metadata(&None), (None, None));
}

#[test]
fn a_directory_without_a_toolchain_or_a_sysroot_is_no_sdk() {
    let mut without_llvm = probe("/sdk/native", None, None);
    without_llvm.llvm_bin_is_dir = false;
    assert!(Sdk::load(Platform::Linux, &without_llvm).is_none());
    let mut without_sysroot = probe("/sdk/native", None, None);
    without_sysroot.sysroot_is_dir = false;
    assert!(Sdk::load(Platform::Linux, &without_sysroot).is_none());

    let mut complete = probe("/sdk/native", None, None);
    complete.cmake_is_file = true;
    complete.cmake_toolchain_file_is_file = true;
    let sdk = Sdk::load(Platform::Linux, &complete).unwrap();
    let paths = sdk_paths(Platform::Linux, "/sdk/native");
    assert_eq!(sdk.llvm_root, "/sdk/native/llvm");
    assert_eq!(sdk.llvm_bin, "/sdk/native/llvm/bin");
    assert_eq!(sdk.sysroot, "/sdk/native/sysroot");
    assert_eq!(sdk.cmake, Some("/sdk/native/build-tools/cmake/bin/cmake".to_owned()));
    assert_eq!(paths.ninja, "/sdk/native/build-tools/cmake/bin/ninja");
    assert_eq!(
        sdk.cmake_toolchain_file,
        Some("/sdk/native/build/cmake/ohos.toolchain.cmake".to_owned())
    );
    assert_eq!(
        sdk_paths(Platform::Windows, r"C:\sdk").cmake,
        r"C:\sdk\build-tools\cmake\bin\cmake.exe"
    );
    assert_eq!(sdk.clone().native_root, sdk.native_root);
}

#[test]
fn the_highest_api_level_is_used() {
    let entry = |name: &str, has_native: bool| SdkEntry {
        name: name.to_owned(),
        has_native,
    };
    let find = |entries: Vec<SdkEntry>| {
        Sdk::highest_api_level(Platform::Linux, "/sdks", &entries)
    };
    assert_eq!(
        find(vec![
            entry("9", true),
            entry("default", true),
            entry("20", true),
            entry("21", false),
            entry("x", true)
        ])
        .as_deref(),
        Some("/sdks/20/native")
    );
    assert_eq!(
        find(vec![entry("default", true), entry("x", true)]).as_deref(),
        Some("/sdks/default/native")
    );
    assert_eq!(find(vec![entry("default", false)]), None);
}

#[test]
fn a_wrong_variable_is_reported_rather_than_passed_over() {
    let mut env = StringMap::new();
    let nothing = Discovery::new(Platform::Linux, &None, &env, "/cache");
    assert!(nothing.candidates.is_empty());
    assert_eq!(nothing.cache.as_deref(), Some("/cache"));
    assert_eq!(
        nothing.tried,
        [
            "none of $OHOS_SDK_NATIVE, $OHOS_NDK_HOME, $OHOS_SDK_HOME, $DEVECO_SDK_HOME are set",
            "no SDK downloaded into /cache"
        ]
    );
    let mac = Discovery::new(Platform::Macos, &None, &env, "/cache");
    assert_eq!(mac.candidates, ["/Applications/DevEco-Studio.app/Contents/sdk"]);
    assert_eq!(mac.cache.as_deref(), Some("/cache"));

    env.insert("DEVECO_SDK_HOME".to_owned(), "/deveco".to_owned());
    env.insert("OHOS_NDK_HOME".to_owned(), "/ndk".to_owned());
    let set = Discovery::new(Platform::Macos, &None, &env, "/cache");
    assert_eq!(set.candidates, ["/ndk", "/deveco"]);
    assert_eq!(set.cache, None);
    assert_eq!(set.tried, ["$OHOS_NDK_HOME = /ndk", "$DEVECO_SDK_HOME = /deveco"]);

    let explicit = Discovery::new(Platform::Linux, &Some("/mine".to_owned()), &env, "/cache");
    assert_eq!(explicit.candidates, ["/mine"]);
    assert_eq!(explicit.cache, None);
    assert_eq!(explicit.tried, ["/mine"]);
}

#[test]
fn an_sdk_is_looked_for_in_order() {
    let sdk = |native: &str| Sdk::load(Platform::Linux, &probe(native, None, None));
    let mut env = StringMap::new();
    env.insert("OHOS_SDK_NATIVE".to_owned(), "/first".to_owned());
    env.insert("OHOS_SDK_HOME".to_owned(), "/second".to_owned());
    let step = |explicit: Option<&str>, env: &StringMap, outcomes, cached| {
        let seen = DiscoverySeen { outcomes, cached };
        let explicit = explicit.map(str::to_owned);
        match Sdk::discover(Platform::Linux, &explicit, env, "/cache", &seen) {
            DiscoverStep::TryCandidate(path) => format!("try {path}"),
            DiscoverStep::TryCache(path) => format!("cache {path}"),
            DiscoverStep::Done(Ok(sdk)) => format!("found {}", sdk.native_root),
            DiscoverStep::Done(Err(Error::SdkNotFound { tried })) => tried.join("; "),
            DiscoverStep::Done(Err(error)) => panic!("{}", error.message()),
        }
    };
    assert_eq!(step(None, &env, vec![], None), "try /first");
    assert_eq!(step(None, &env, vec![sdk("/first")], None), "found /first");
    assert_eq!(step(None, &env, vec![None], None), "try /second");
    assert_eq!(step(None, &env, vec![None, sdk("/second")], None), "found /second");
    // Something is configured, so a downloaded SDK is not used.
    assert_eq!(
        step(None, &env, vec![None, None], Some(sdk("/cache/sdk"))),
        "$OHOS_SDK_NATIVE = /first; $OHOS_SDK_HOME = /second"
    );

    let empty = StringMap::new();
    assert_eq!(step(None, &empty, vec![], None), "cache /cache");
    assert_eq!(step(None, &empty, vec![], Some(sdk("/cache/sdk"))), "found /cache/sdk");
    assert_eq!(
        step(None, &empty, vec![], Some(None)),
        "none of $OHOS_SDK_NATIVE, $OHOS_NDK_HOME, $OHOS_SDK_HOME, $DEVECO_SDK_HOME are set; no SDK downloaded into /cache"
    );
    assert_eq!(step(Some("/mine"), &env, vec![], None), "try /mine");
    assert_eq!(step(Some("/mine"), &env, vec![None], None), "/mine");
}

/// Describes the step that follows.
fn download(request: &Request, components: &Components, seen: DownloadSeen) -> String {
    match Sdk::download(request, components, "linux", "x86_64", seen) {
        DownloadStep::FetchReleases { url, subdir } => format!("fetch {url} {subdir}"),
        DownloadStep::Install(selection) => format!("install {}", selection.version),
        DownloadStep::Load(path) => format!("load {path}"),
        DownloadStep::Done(Ok(sdk)) => format!("done {}", sdk.native_root),
        DownloadStep::Done(Err(error)) => error,
    }
}

#[test]
fn a_download_needs_the_native_component_and_a_safe_version() {
    let version = |text: &str| Request::Version(text.to_owned());
    let fetch =
        "fetch https://api.github.com/repos/openharmony-rs/ohos-sdk/releases?per_page=100 ohos-sdk";
    let start = |request: &Request, components: &Components| {
        download(request, components, DownloadSeen::Nothing)
    };
    assert_eq!(start(&version("6.0"), &components(&["native"])), fetch);
    assert_eq!(start(&Request::Api(20), &Components::All), fetch);
    assert!(start(&version("6.0"), &components(&["js"])).contains("must include `native`"));
    assert_eq!(
        start(&version("../6"), &Components::All),
        "invalid OpenHarmony SDK version `../6`; expected a version such as `6.0.0.1`"
    );
}

#[test]
fn a_download_selects_installs_and_loads() {
    let request = Request::Version("6.0".to_owned());
    let step = |seen: DownloadSeen| download(&request, &Components::All, seen);
    let releases = |tag: &str| {
        DownloadSeen::Releases(Ok(vec![release(
            tag,
            &[
                "ohos-sdk-windows_linux-public.tar.gz",
                "ohos-sdk-windows_linux-public.tar.gz.sha256",
            ],
        )]))
    };
    let failed = || "failed".to_owned();
    assert_eq!(step(DownloadSeen::Releases(Err(failed()))), "failed");
    assert_eq!(step(releases("v6.0.1")), "install 6.0.1");
    assert_eq!(
        step(releases("v5.0")),
        "no OpenHarmony SDK release matches version `6.0`"
    );
    assert_eq!(step(DownloadSeen::Installed(Err(failed()))), "failed");
    assert_eq!(step(DownloadSeen::Installed(Ok("/x".to_owned()))), "load /x");
    let loaded = |sdk| DownloadSeen::Loaded {
        installed: "/x".to_owned(),
        sdk,
    };
    assert_eq!(
        step(loaded(Sdk::load(Platform::Linux, &probe("/x/native", None, None)))),
        "done /x/native"
    );
    assert_eq!(
        step(loaded(None)),
        "the OpenHarmony SDK installed at /x has no usable `native` component"
    );
}

#[test]
fn reads_the_api_level_a_release_declares() {
    let mut declared = release("v9.9", &[]);
    declared.body = Some(
        "OpenHarmony SDK mirror release for v9.9.\nAPI version: 42\nArchives larger than..."
            .to_owned(),
    );
    assert_eq!(api_level(&declared, "9.9"), Some(42));

    // Older releases predate the declaration and fall back to the table.
    let listed = release("v6.1", &[]);
    assert_eq!(api_level(&listed, "6.1"), Some(23));
    assert_eq!(api_level(&release("v9.9", &[]), "9.9"), None);

    // A declaration wins over the table, so a correction does not need a release.
    let mut corrected = release("v6.1", &[]);
    corrected.body = Some("api version:24".to_owned());
    assert_eq!(api_level(&corrected, "6.1"), Some(24));
}

#[test]
fn every_listed_release_has_its_api_level() {
    for (version, level) in [
        ("7.0", 26),
        ("6.1", 23),
        ("6.0.0.1", 20),
        ("6.0", 20),
        ("5.1.0", 18),
        ("5.0.3", 15),
        ("5.0.2", 14),
        ("5.0.1", 13),
        ("5.0.0", 12),
        ("4.1", 11),
        ("4.0", 10),
    ] {
        assert_eq!(api_level(&release("v", &[]), version), Some(level), "{version}");
    }
    let mut unreadable = release("v6.1", &[]);
    unreadable.body = Some("API version: soon\nAPI VERSION : 30\n".to_owned());
    assert_eq!(api_level(&unreadable, "6.1"), Some(30));
}

#[test]
fn available_versions_are_listed_newest_first() {
    let listed = available(vec![release("v6.0", &[]), release("v9.9", &[]), release("x1", &[])]);
    assert_eq!(listed, [("9.9".to_owned(), None), ("6.0".to_owned(), Some(20))]);
}

#[test]
fn selects_the_newest_release_providing_an_api_level() {
    // Not in version order, as GitHub may list them.
    let releases = vec![
        release("v6.0", &[]),
        release("v7.0", &[]),
        release("v6.0.0.1", &[]),
    ];

    let (selected, version) = select_by_api(releases, 20).unwrap();
    assert_eq!(selected.tag_name, "v6.0.0.1");
    assert_eq!(version, "6.0.0.1");

    let error = select_by_api(vec![release("v6.1", &[])], 19).unwrap_err();
    assert!(error.contains("the mirror has 23"), "{error}");
}

#[test]
fn known_api_levels_are_listed_once_and_in_order() {
    let releases: Vec<Release> = ["v7.0", "v4.0", "v6.0", "v6.0.0.1", "v9.9"].map(|tag| release(tag, &[])).into();
    assert_eq!(
        select_by_api(releases, 1).unwrap_err(),
        "no OpenHarmony SDK release provides API level 1; the mirror has 10, 20, 26. Any release can be installed with --version, see --list"
    );
}

#[test]
fn releases_after_7_0_must_be_attested() {
    for version in ["4.0", "6.0.0.1", "6.1", "7.0"] {
        assert!(!requires_attestation(version), "{version}");
    }
    for version in ["7.0.0.1", "7.1", "8.0"] {
        assert!(requires_attestation(version), "{version}");
    }
}

#[test]
fn maps_hosts_to_sdk_archives() {
    assert_eq!(
        host_archive_name("linux", "x86_64"),
        Some("ohos-sdk-windows_linux-public.tar.gz")
    );
    assert_eq!(
        host_archive_name("windows", "x86_64"),
        Some("ohos-sdk-windows_linux-public.tar.gz")
    );
    assert_eq!(
        host_archive_name("macos", "aarch64"),
        Some("L2-SDK-MAC-M1-PUBLIC.tar.gz")
    );
    assert_eq!(
        host_archive_name("macos", "x86_64"),
        Some("ohos-sdk-mac-public.tar.gz")
    );
    assert_eq!(host_archive_name("linux", "aarch64"), None);
    assert_eq!(host_archive_name("freebsd", "x86_64"), None);
    assert_eq!(os_dir_name("macos"), "darwin");
    assert_eq!(os_dir_name("windows"), "windows");
}

#[test]
fn recognizes_component_archives_at_any_depth() {
    fn host(path: &str) -> Option<String> {
        component_host(Platform::Linux, path)
    }
    assert_eq!(
        host("ohos-sdk/linux/native-linux-x64-6.0.0.48-Release.zip").as_deref(),
        Some("linux")
    );
    assert_eq!(
        host("linux/native-linux-x64-5.0.0.71-Release.zip").as_deref(),
        Some("linux")
    );
    assert_eq!(
        host("sdk/packages/ohos-sdk/darwin/ets-darwin-arm64-6.0.0.48-Release.zip").as_deref(),
        Some("darwin")
    );
    assert_eq!(host("manifest_tag.xml"), None);
    assert_eq!(host("native.zip"), None);
    assert_eq!(host("../native.zip"), None);
    assert_eq!(host("linux/.zip"), None);
    assert_eq!(host("./linux/./native.zip").as_deref(), Some("linux"));
    assert_eq!(
        component_name(Platform::Linux, "a/native-linux-x64-6.0.0.48-Release.zip").as_deref(),
        Some("native")
    );
    assert_eq!(component_name(Platform::Linux, ".."), None);
}

#[test]
fn a_release_ships_these_components() {
    assert_eq!(COMPONENTS, ["ets", "js", "native", "previewer", "toolchains"]);
    let all = components(&COMPONENTS);
    assert!(COMPONENTS.iter().all(|name| all.includes(name)));
    assert!(!all.includes(ALL_COMPONENTS));
}

#[test]
fn component_archives_are_told_apart_by_the_rules_of_the_platform() {
    let path = r"sdk\windows\native-windows-x64-6.0.0.48-Release.zip";
    assert_eq!(component_host(Platform::Windows, path).as_deref(), Some("windows"));
    assert_eq!(component_name(Platform::Windows, path).as_deref(), Some("native"));
    // Elsewhere a backslash is part of a name.
    assert_eq!(component_host(Platform::Linux, path), None);
    assert_eq!(
        component_name(Platform::Linux, path).as_deref(),
        Some(r"sdk\windows\native")
    );
    // What a path begins with is none of its parts.
    assert_eq!(component_host(Platform::Windows, r"\\server\linux\native.zip"), None);
    assert_eq!(component_name(Platform::Windows, r"\\server\native.zip"), None);
    assert_eq!(
        component_host(Platform::Windows, r"\\server\share\linux\native.zip").as_deref(),
        Some("linux")
    );
    assert_eq!(component_host(Platform::Windows, r"\\?\linux\native.zip"), None);
    assert_eq!(component_host(Platform::Windows, r"\\?\C:\linux/native.zip"), None);
    assert_eq!(component_host(Platform::Windows, r"\\?\C:\.\native.zip"), None);
    assert_eq!(
        component_host(Platform::Windows, r"\\server\\native.zip").as_deref(),
        Some("server")
    );
    assert_eq!(component_host(Platform::Windows, "C:native.zip"), None);
    assert_eq!(
        component_host(Platform::Windows, r"C:\linux/native.zip").as_deref(),
        Some("linux")
    );
    assert_eq!(component_host(Platform::Linux, "C:/native.zip").as_deref(), Some("C:"));
}

#[test]
fn recognizes_split_archive_parts() {
    let name = "ohos-sdk-windows_linux-public.tar.gz";
    assert!(is_archive_part(name, name));
    assert!(is_archive_part(&format!("{name}.aa"), name));
    assert!(is_archive_part(&format!("{name}.ab"), name));
    assert!(is_archive_part(&format!("{name}.zz"), name));
    assert!(!is_archive_part(&format!("{name}.sha256"), name));
    assert!(!is_archive_part(&format!("{name}.sig"), name));
    assert!(!is_archive_part(&format!("{name}.sigstore.json"), name));
    assert!(!is_archive_part(&format!("{name}.a"), name));
    assert!(!is_archive_part("other-archive.tar.gz", name));
}

#[test]
fn selects_the_newest_matching_sdk_and_parts() {
    let releases = vec![
        release(
            "v6.1",
            &[
                "ohos-sdk-windows_linux-public.tar.gz.aa",
                "ohos-sdk-windows_linux-public.tar.gz.ab",
                "ohos-sdk-windows_linux-public.tar.gz.sha256",
            ],
        ),
        release(
            "v6.0.0.1",
            &[
                "ohos-sdk-windows_linux-public.tar.gz.aa",
                "ohos-sdk-windows_linux-public.tar.gz.ab",
                "ohos-sdk-windows_linux-public.tar.gz.sha256",
            ],
        ),
    ];
    let selection = select(releases, &Request::Version("6.0".into()), "linux", "x86_64")
        .unwrap_or_else(|error| panic!("{error}"));

    assert_eq!(selection.version, "6.0.0.1");
    assert_eq!(selection.os_dir_name, "linux");
    assert_eq!(selection.parts.len(), 2);
    assert_eq!(
        selection.parts[0].name,
        "ohos-sdk-windows_linux-public.tar.gz.aa"
    );
    assert_eq!(
        selection.sha256_asset.name,
        "ohos-sdk-windows_linux-public.tar.gz.sha256"
    );
}

#[test]
fn ignores_the_whole_archive_next_to_its_parts() {
    let releases = vec![release(
        "v6.0",
        &[
            "ohos-sdk-windows_linux-public.tar.gz",
            "ohos-sdk-windows_linux-public.tar.gz.aa",
            "ohos-sdk-windows_linux-public.tar.gz.ab",
            "ohos-sdk-windows_linux-public.tar.gz.sha256",
            "ohos-sdk-windows_linux-public.tar.gz.sigstore.json",
        ],
    )];
    let selection = select(releases, &Request::Version("6.0".into()), "linux", "x86_64")
        .unwrap_or_else(|error| panic!("{error}"));
    let parts: Vec<_> = selection
        .parts
        .iter()
        .map(|part| part.name.as_str())
        .collect();
    assert_eq!(
        parts,
        [
            "ohos-sdk-windows_linux-public.tar.gz.aa",
            "ohos-sdk-windows_linux-public.tar.gz.ab"
        ]
    );
}

#[test]
fn rejects_sdk_releases_without_a_checksum() {
    let releases = vec![release(
        "v6.0",
        &[
            "ohos-sdk-windows_linux-public.tar.gz.aa",
            "ohos-sdk-windows_linux-public.tar.gz.ab",
        ],
    )];
    assert!(select(releases, &Request::Version("6.0".into()), "linux", "x86_64").is_err());
}

#[test]
fn an_unusable_release_is_reported() {
    let error = |releases: Vec<Release>, version: &str, os: &str| {
        match select(releases, &Request::Version(version.to_owned()), os, "x86_64") {
            Ok(_) => panic!("selected"),
            Err(error) => error,
        }
    };
    assert_eq!(
        error(vec![], "6.0", "plan9"),
        "OpenHarmony SDK archives are not available for host plan9-x86_64"
    );
    assert_eq!(
        error(vec![], "6.0", "linux"),
        "no OpenHarmony SDK release matches version `6.0`"
    );
    assert_eq!(
        error(vec![release("v6.0./x", &[])], "6.0", "linux"),
        "release `v6.0./x` has an unsafe version name"
    );
    assert_eq!(
        error(vec![release("v6.0", &["readme"])], "6.0", "linux"),
        "release `v6.0` has no SDK archive for host linux-x86_64"
    );
    let parts = [
        "ohos-sdk-windows_linux-public.tar.gz.ab",
        "ohos-sdk-windows_linux-public.tar.gz.aa",
    ];
    assert_eq!(
        error(vec![release("v6.0", &parts)], "6.0", "linux"),
        "release `v6.0` has no SHA-256 checksum for ohos-sdk-windows_linux-public.tar.gz"
    );
}

#[test]
fn parts_are_concatenated_by_name() {
    let selection = select(
        vec![release(
            "v6.0",
            &[
                "ohos-sdk-windows_linux-public.tar.gz.ac",
                "ohos-sdk-windows_linux-public.tar.gz.aa",
                "ohos-sdk-windows_linux-public.tar.gz.sha256",
                "ohos-sdk-windows_linux-public.tar.gz.ab",
            ],
        )],
        &Request::Api(20),
        "windows",
        "aarch64",
    )
    .unwrap_or_else(|error| panic!("{error}"));
    let ends: String = selection
        .parts
        .iter()
        .map(|part| part.name.chars().last().unwrap())
        .collect();
    assert_eq!(ends, "abc");
    assert_eq!(selection.os_dir_name, "windows");
}

#[test]
fn the_cache_is_reused_when_it_holds_the_requested_components() {
    let parts = [
        "ohos-sdk-windows_linux-public.tar.gz.aa",
        "ohos-sdk-windows_linux-public.tar.gz.ab",
        "ohos-sdk-windows_linux-public.tar.gz.sha256",
    ];
    let selection = some_selection();
    let all = Components::All;
    let narrow = components(&["native", "toolchains"]);
    assert_eq!(components(&["native", ALL_COMPONENTS]), Components::All);

    let dir = Some("/root/6.0/linux/20".to_owned());
    let installed = |components: &Components| {
        existing_install(&Some(selection_marker(&selection, components)), &dir, &selection).map(
            |(installed, found)| {
                assert_eq!(found, "/root/6.0/linux/20");
                installed
            },
        )
    };

    // An install made with `--components native,toolchains` serves that and any subset, in any order,
    // but not a request for every component.
    let narrow_install = installed(&narrow).unwrap();
    assert!(narrow_install.covers(&components(&["toolchains", "native", "native"])));
    assert!(narrow_install.covers(&components(&["native"])));
    assert!(!narrow_install.covers(&components(&["native", "ets"])));
    assert!(!narrow_install.covers(&all));

    // A full install serves every request.
    let full_install = installed(&all).unwrap();
    assert!(full_install.covers(&narrow));
    assert!(full_install.covers(&all));

    // A reinstall adds to what is there rather than narrowing it.
    assert_eq!(
        narrow.union(&components(&["native", "ets"])),
        components(&["ets", "native", "toolchains"])
    );
    assert_eq!(narrow.union(&all), Components::All);

    // A release re-published under the same tag with different assets is a different install.
    let republished = select(
        vec![release("v6.0", &[parts[0], parts[2]])],
        &Request::Version("6.0".to_owned()),
        "linux",
        "x86_64",
    )
    .unwrap_or_else(|error| panic!("{error}"));
    let marker = Some(selection_marker(&selection, &all));
    assert!(existing_install(&marker, &dir, &republished).is_none());
    let other = Some(selection_marker(&republished, &all));
    assert!(existing_install(&other, &dir, &selection).is_none());

    // An interrupted install leaves the tree but no marker.
    assert!(existing_install(&None, &dir, &selection).is_none());
    assert!(existing_install(&marker, &None, &selection).is_none());
}

#[test]
fn the_marker_lists_the_release_and_then_the_components() {
    assert_eq!(
        selection_marker(&some_selection(), &components(&["native", "ets"])),
        "6.0\nohos-sdk-windows_linux-public.tar.gz\nohos-sdk-windows_linux-public.tar.gz.aa\nohos-sdk-windows_linux-public.tar.gz.ab\n\nets\nnative\n"
    );
    assert!(selection_marker(&some_selection(), &Components::All).ends_with(".ab\n\nall\n"));
    assert!(Components::All.includes("anything"));
    assert!(!components(&["native"]).includes("ets"));
}

#[test]
fn unpacks_only_the_requested_components_of_the_host() {
    let paths = [
        "ohos-sdk/linux/ets-linux-x64-6.0.0.48-Release.zip",
        "ohos-sdk/linux/native-linux-x64-6.0.0.48-Release.zip",
        "ohos-sdk/windows/native-windows-x64-6.0.0.48-Release.zip",
        "ohos-sdk/manifest_tag.xml",
    ];
    let selection = some_selection();
    let unpack = |components: &Components| {
        let mut filter = HostFilter::new();
        let unpacked: Vec<&str> = paths
            .into_iter()
            .filter(|path| filter.accept(Platform::Linux, path, selection.os_dir_name, components))
            .collect();
        (unpacked, filter.finish(&selection, components))
    };

    let (unpacked, result) = unpack(&components(&["native"]));
    result.unwrap();
    assert_eq!(unpacked, ["ohos-sdk/linux/native-linux-x64-6.0.0.48-Release.zip"]);

    let error = unpack(&components(&["native", "js"])).1.unwrap_err();
    assert!(error.contains("no SDK component `js`"), "{error}");
    assert_eq!(
        error,
        "release `v6.0` has no SDK component `js` for host `linux` (it has: ets, native)"
    );
    assert_eq!(unpack(&Components::All).0.len(), 2);

    let mut foreign = HostFilter::new();
    assert!(!foreign.accept(Platform::Linux, paths[2], "linux", &Components::All));
    assert_eq!(
        foreign.finish(&selection, &Components::All).unwrap_err(),
        "the archive of release `v6.0` has no OpenHarmony SDK components for host `linux` (it has: windows)"
    );
}

fn nothing_extracted() -> ExtractSeen {
    ExtractSeen {
        listed: None,
        unpacked: 0,
        failure: None,
        levels: None,
    }
}

#[test]
fn extracts_components_in_place() {
    let mut seen = nothing_extracted();
    let mut unpacked = Vec::new();
    let api_version = loop {
        match extract_components(Platform::Linux, "/linux", &seen) {
            ExtractStep::List(path) => {
                assert_eq!(path, "/linux");
                seen.listed = Some(Ok(vec![
                    "native-linux-x64-1.0.0.zip".to_owned(),
                    "notes.txt".to_owned(),
                    "ets-linux-x64-1.0.0.zip".to_owned(),
                ]));
            }
            ExtractStep::Unpack(path) => {
                unpacked.push(path);
                seen.unpacked += 1;
            }
            ExtractStep::ReadLevels(_) => seen.levels = Some(Ok(vec![None, Some(20), Some(21)])),
            ExtractStep::Done(result) => break result.unwrap(),
        }
    };

    assert_eq!(api_version, 20);
    assert_eq!(
        unpacked,
        ["/linux/ets-linux-x64-1.0.0.zip", "/linux/native-linux-x64-1.0.0.zip"]
    );
}

#[test]
fn failures_to_extract_are_reported() {
    let fails = |seen: &ExtractSeen| match extract_components(Platform::Linux, "/d", seen) {
        ExtractStep::Done(Err(message)) => message,
        _ => panic!("did not fail"),
    };
    let mut seen = nothing_extracted();
    seen.listed = Some(Err("denied".to_owned()));
    assert_eq!(fails(&seen), "could not inspect /d: denied");
    seen.listed = Some(Ok(vec!["readme".to_owned()]));
    assert_eq!(fails(&seen), "no OpenHarmony SDK components found in /d");
    seen.listed = Some(Ok(vec!["a.zip".to_owned()]));
    for (failure, message) in [
        (UnpackError::Open("e".to_owned()), "could not open /d/a.zip: e"),
        (UnpackError::Read("e".to_owned()), "could not read /d/a.zip: e"),
        (UnpackError::Extract("e".to_owned()), "could not extract /d/a.zip: e"),
        (UnpackError::Remove("e".to_owned()), "could not remove /d/a.zip: e"),
    ] {
        seen.failure = Some(failure);
        assert_eq!(fails(&seen), message);
    }
    seen.failure = None;
    seen.unpacked = 1;
    seen.levels = Some(Err("denied".to_owned()));
    assert_eq!(fails(&seen), "could not inspect /d: denied");
    seen.levels = Some(Ok(vec![None]));
    assert_eq!(
        fails(&seen),
        "could not determine the API version of the OpenHarmony SDK in /d"
    );
}

fn ran(code: i32) -> Outcome {
    Ok(Output {
        code: Some(code),
        stdout: Vec::new(),
        stderr: Vec::new(),
    })
}

/// Carries out a fetch with the given answers; the result is its end and the steps taken.
fn fetch(
    selection: &Selection,
    checksum: Result<String, String>,
    auth: Outcome,
    attested: Result<u16, String>,
    downloaded: Result<(), String>,
    verified: Result<(), String>,
) -> (Result<(), String>, Vec<String>) {
    let mut auth = Some(auth);
    let mut seen = FetchSeen {
        checksum: None,
        auth: None,
        attested: None,
        downloaded: None,
        verified: None,
    };
    let mut taken = Vec::new();
    loop {
        match fetch_and_verify_archive(selection, "/cache/archive", &seen) {
            FetchStep::FetchChecksum(url) => {
                taken.push(format!("checksum {url}"));
                seen.checksum = Some(checksum.clone());
            }
            FetchStep::Authenticate(command) => {
                taken.push(command.join(" "));
                seen.auth = auth.take();
            }
            FetchStep::QueryAttestation(url) => {
                taken.push(format!("query {url}"));
                seen.attested = Some(attested.clone());
            }
            FetchStep::Download {
                note,
                parts,
                path,
                expected,
            } => {
                let urls = |assets: &Vec<Asset>| -> Vec<String> {
                    assets.iter().map(|asset| asset.browser_download_url.clone()).collect()
                };
                assert_eq!(urls(&parts), urls(&selection.parts));
                assert_eq!(path, "/cache/archive");
                taken.push(format!("download {expected} {}", note.unwrap_or_default()));
                seen.downloaded = Some(downloaded.clone());
            }
            FetchStep::Verify {
                path,
                repository,
                workflow,
                source_ref,
            } => {
                taken.push(format!("verify {path} {repository} {workflow} {source_ref}"));
                seen.verified = Some(verified.clone());
            }
            FetchStep::Done(result) => return (result, taken),
        }
    }
}

#[test]
fn an_attested_archive_is_verified() {
    let digest = "ab".repeat(32);
    let checksum = || Ok(format!("{} *archive\n", "AB".repeat(32)));
    let selection = some_selection();
    let (result, taken) = fetch(&selection, checksum(), ran(0), Ok(200), Ok(()), Ok(()));
    assert!(result.is_ok());
    assert_eq!(
        taken,
        [
            "checksum https://example.invalid/ohos-sdk-windows_linux-public.tar.gz.sha256".to_owned(),
            "gh auth status --active --hostname github.com".to_owned(),
            format!(
                "query https://api.github.com/repos/openharmony-rs/ohos-sdk/attestations/sha256:{digest}"
            ),
            format!("download {digest} "),
            "verify /cache/archive openharmony-rs/ohos-sdk openharmony-rs/ohos-sdk/.github/workflows/Release.yml refs/tags/v6.0".to_owned(),
        ]
    );
    let (result, _) = fetch(
        &selection,
        checksum(),
        ran(0),
        Ok(200),
        Ok(()),
        Err("forged".to_owned()),
    );
    assert_eq!(result.unwrap_err(), "forged");

    // An old release may have no attestation.
    let (result, taken) = fetch(&selection, checksum(), ran(0), Ok(404), Ok(()), Ok(()));
    assert!(result.is_ok());
    assert!(taken[3].contains("has no build provenance attestation for the whole archive"));
    assert_eq!(taken.len(), 4);

    // Without `gh` there is nothing to verify with.
    let missing = Err(RunError {
        not_found: true,
        message: String::new(),
    });
    let (result, taken) = fetch(&selection, checksum(), missing, Ok(200), Ok(()), Ok(()));
    assert!(result.is_ok());
    assert!(taken[2].contains("`gh` is not installed"), "{taken:?}");
    let (_, taken) = fetch(&selection, checksum(), ran(1), Ok(200), Ok(()), Ok(()));
    assert!(taken[2].contains("`gh` is not authenticated"), "{taken:?}");
}

#[test]
fn a_new_release_without_an_attestation_is_refused() {
    let mut selection = some_selection();
    selection.version = "7.0.0.1".to_owned();
    let checksum = Ok("ab".repeat(32));
    let (result, taken) = fetch(&selection, checksum, ran(0), Ok(404), Ok(()), Ok(()));
    assert_eq!(
        result.unwrap_err(),
        "release `v7.0.0.1` has no build provenance attestation for `ohos-sdk-windows_linux-public.tar.gz`, which every release after 7.0 must have"
    );
    assert!(taken.iter().all(|step| !step.starts_with("download")));
}

#[test]
fn failures_to_fetch_are_reported() {
    let selection = some_selection();
    let good = || Ok("ab".repeat(32));
    let end = |checksum, auth, attested, downloaded| {
        fetch(&selection, checksum, auth, attested, downloaded, Ok(())).0.unwrap_err()
    };
    assert_eq!(end(Err("404".to_owned()), ran(0), Ok(200), Ok(())), "404");
    assert_eq!(
        end(Ok("nonsense".to_owned()), ran(0), Ok(200), Ok(())),
        "asset `ohos-sdk-windows_linux-public.tar.gz.sha256` has no valid SHA-256 digest"
    );
    assert!(end(Ok(" \n".to_owned()), ran(0), Ok(200), Ok(())).contains("no valid SHA-256"));
    let denied = Err(RunError {
        not_found: false,
        message: "denied".to_owned(),
    });
    assert_eq!(
        end(good(), denied, Ok(200), Ok(())),
        "could not run `gh auth status`: denied"
    );
    assert!(end(good(), ran(0), Ok(500), Ok(())).contains("http status: 500"));
    assert_eq!(
        end(good(), ran(0), Ok(200), Err("disk full".to_owned())),
        "disk full"
    );
}

fn nothing_installed() -> InstallSeen {
    InstallSeen {
        root_created: None,
        locked: None,
        existing: None,
        staging_cleared: None,
        archive_cleared: None,
        fetched: None,
        staging_created: None,
        host_extracted: None,
        archive_dropped: None,
        api: None,
        invalidated: None,
        base_cleared: None,
        base_created: None,
        moved: None,
        marked: None,
        cleaned: false,
    }
}

/// Carries out an install in which the step called `broken` fails with `boom`; the result is its end,
/// the steps taken, and the marker written.
fn run_install(
    existing: (Option<String>, Option<String>),
    asked: &Components,
    broken: &str,
) -> (Result<String, String>, Vec<String>, Option<String>) {
    let selection = some_selection();
    let mut seen = nothing_installed();
    let mut taken = Vec::new();
    let mut marker = None;
    let answer = |name: &str| {
        if name == broken {
            Err("boom".to_owned())
        } else {
            Ok(())
        }
    };
    loop {
        match install(Platform::Linux, "/cache", &selection, asked, &seen) {
            InstallStep::CreateRoot(path) => {
                taken.push(format!("root {path}"));
                seen.root_created = Some(answer("root"));
            }
            InstallStep::Lock(path) => {
                taken.push(format!("lock {path}"));
                seen.locked = Some(answer("lock"));
            }
            InstallStep::Inspect { marker, base } => {
                taken.push(format!("inspect {marker} {base}"));
                seen.existing = Some(existing.clone());
            }
            InstallStep::ClearStaging { announcement, path } => {
                taken.push(format!("clear {path}"));
                assert_eq!(
                    announcement,
                    "note: installing OpenHarmony SDK 6.0 from `ohos-sdk-windows_linux-public.tar.gz`"
                );
                seen.staging_cleared = Some(answer("clear staging"));
            }
            InstallStep::ClearArchive(path) => {
                taken.push(format!("clear {path}"));
                seen.archive_cleared = Some(answer("clear archive"));
            }
            InstallStep::Fetch(path) => {
                taken.push(format!("fetch {path}"));
                seen.fetched = Some(answer("fetch"));
            }
            InstallStep::CreateStaging(path) => {
                taken.push(format!("create {path}"));
                seen.staging_created = Some(answer("create staging"));
            }
            InstallStep::ExtractHost {
                archive,
                staging,
                components,
            } => {
                taken.push(format!("extract {archive} {staging}"));
                assert!(components.covers(asked));
                seen.host_extracted = Some(answer("extract host"));
            }
            InstallStep::DropArchive(path) => {
                taken.push(format!("drop {path}"));
                seen.archive_dropped = Some(answer("drop"));
            }
            InstallStep::ExtractComponents(path) => {
                taken.push(format!("unpack {path}"));
                seen.api = Some(answer("unpack").map(|()| 20));
            }
            InstallStep::Invalidate(path) => {
                taken.push(format!("invalidate {path}"));
                seen.invalidated = Some(answer("invalidate"));
            }
            InstallStep::ClearBase(path) => {
                taken.push(format!("clear {path}"));
                seen.base_cleared = Some(answer("clear base"));
            }
            InstallStep::CreateBase(path) => {
                taken.push(format!("create {path}"));
                seen.base_created = Some(answer("create base"));
            }
            InstallStep::Move { from, to } => {
                taken.push(format!("move {from} {to}"));
                seen.moved = Some(answer("move"));
            }
            InstallStep::Mark { path, text } => {
                taken.push(format!("mark {path}"));
                marker = Some(text);
                seen.marked = Some(answer("mark"));
            }
            InstallStep::CleanUp { archive, staging } => {
                taken.push(format!("clean {archive} {staging}"));
                seen.cleaned = true;
            }
            InstallStep::Done { result, .. } => return (result, taken, marker),
        }
    }
}

#[test]
fn an_install_is_invalidated_first_and_marked_last() {
    let (result, taken, marker) = run_install((None, None), &components(&["native"]), "");
    assert_eq!(result.unwrap(), "/cache/6.0/linux/20");
    let archive = "/cache/.download-sdk-6.0-linux.tar.gz";
    let staging = "/cache/.extract-sdk-6.0-linux";
    assert_eq!(
        taken,
        [
            "root /cache".to_owned(),
            "lock /cache/6.0-linux.lock".to_owned(),
            "inspect /cache/6.0/linux/.cargo-ohos-complete /cache/6.0/linux".to_owned(),
            format!("clear {staging}"),
            format!("clear {archive}"),
            format!("fetch {archive}"),
            format!("create {staging}"),
            format!("extract {archive} {staging}"),
            format!("drop {archive}"),
            format!("unpack {staging}"),
            "invalidate /cache/6.0/linux/.cargo-ohos-complete".to_owned(),
            "clear /cache/6.0/linux".to_owned(),
            "create /cache/6.0/linux".to_owned(),
            format!("move {staging} /cache/6.0/linux/20"),
            "mark /cache/6.0/linux/.cargo-ohos-complete".to_owned(),
            format!("clean {archive} {staging}"),
        ]
    );
    assert!(marker.unwrap().ends_with("\n\nnative\n"));
}

#[test]
fn an_install_with_the_components_is_reused_and_others_are_added_to() {
    let narrow = components(&["native"]);
    let dir = Some("/cache/6.0/linux/20".to_owned());
    let existing = || {
        (
            Some(selection_marker(&some_selection(), &narrow)),
            dir.clone(),
        )
    };
    let (result, taken, _) = run_install(existing(), &narrow, "");
    assert_eq!(result.unwrap(), "/cache/6.0/linux/20");
    assert_eq!(taken.len(), 3);

    let (result, _, marker) = run_install(existing(), &components(&["ets"]), "");
    assert!(result.is_ok());
    assert!(marker.unwrap().ends_with("\n\nets\nnative\n"));
}

#[test]
fn a_failing_install_cleans_up_and_is_reported() {
    for (broken, message, cleans) in [
        ("root", "could not create /cache: boom", false),
        ("lock", "boom", false),
        ("clear staging", "could not remove /cache/.extract-sdk-6.0-linux: boom", false),
        ("clear archive", "could not remove /cache/.download-sdk-6.0-linux.tar.gz: boom", false),
        ("fetch", "boom", true),
        ("create staging", "could not create /cache/.extract-sdk-6.0-linux: boom", true),
        ("extract host", "boom", true),
        ("drop", "could not remove /cache/.download-sdk-6.0-linux.tar.gz: boom", true),
        ("unpack", "boom", true),
        ("invalidate", "could not remove /cache/6.0/linux/.cargo-ohos-complete: boom", true),
        ("clear base", "could not remove /cache/6.0/linux: boom", true),
        ("create base", "could not create /cache/6.0/linux: boom", true),
        ("move", "could not install SDK into /cache/6.0/linux/20: boom", true),
        ("mark", "could not mark /cache/6.0/linux complete: boom", true),
    ] {
        let (result, taken, _) = run_install((None, None), &Components::All, broken);
        assert_eq!(result.unwrap_err(), message);
        assert_eq!(taken.last().unwrap().starts_with("clean "), cleans, "{broken}");
    }
}
