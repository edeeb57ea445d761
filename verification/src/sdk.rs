//! The OpenHarmony SDK: its releases, its installs, and finding one that is installed.

use crate::download::{is_safe_component, safe_component, Release};
use crate::path::{join, join2, joined_path, program_of, program_path, Platform};
use crate::text::{cat3, copy_of, opt_text, parse_u32, parsed_u32, trim, trimmed};
use vstd::prelude::*;

use self::components::wants;
use self::release::{select, select_is};

pub mod components;
pub mod discovery;
pub mod extract;
pub mod fetch;
pub mod install;
pub mod release;

pub use self::components::{Components, ALL_COMPONENTS, COMPONENTS};
pub use self::discovery::{
    CacheEntry, CandidateSeen, CandidateStep, DiscoverStep, DiscoverySeen, Discovery, SdkEntry,
};
pub use self::release::{available, os_dir_name, Request, Selection};

verus! {

/// Where the releases are listed.
pub const SDK_RELEASES_URL: &'static str =
    "https://api.github.com/repos/openharmony-rs/ohos-sdk/releases?per_page=100";

/// The cache directory of downloaded SDKs.
pub const SDK_CACHE_SUBDIR: &'static str = "ohos-sdk";

/// An installed SDK, as far as building native code needs it.
#[derive(Debug)]
pub struct Sdk {
    pub native_root: String,
    pub sysroot: String,
    pub llvm_root: String,
    pub llvm_bin: String,
    pub cmake: Option<String>,
    pub cmake_toolchain_file: Option<String>,
    /// `apiVersion` from `oh-uni-package.json`, e.g. `21`.
    pub api_version: Option<u32>,
    /// `version` from `oh-uni-package.json`, e.g. `6.0.1.112`.
    pub version: Option<String>,
}

impl Clone for Sdk {
    fn clone(&self) -> (res: Self)
        ensures
            res == *self,
    {
        Sdk {
            native_root: self.native_root.clone(),
            sysroot: self.sysroot.clone(),
            llvm_root: self.llvm_root.clone(),
            llvm_bin: self.llvm_bin.clone(),
            cmake: copy_of(&self.cmake),
            cmake_toolchain_file: copy_of(&self.cmake_toolchain_file),
            api_version: self.api_version,
            version: copy_of(&self.version),
        }
    }
}

/// The `apiVersion` of a package: releases write it as a text or as a number.
pub enum ApiValue {
    Text(String),
    Number(u64),
    Other,
}

/// What `oh-uni-package.json` says.
pub struct UniPackage {
    pub api_version: Option<ApiValue>,
    pub version: Option<String>,
}

/// The API level a package declares.
pub open spec fn package_level(package: UniPackage) -> Option<u32> {
    match package.api_version {
        Some(ApiValue::Text(text)) => parsed_u32(trimmed(text@)),
        Some(ApiValue::Number(n)) => if n <= u32::MAX {
            Some(n as u32)
        } else {
            None
        },
        _ => None,
    }
}

/// The API level and the version of a package, as far as there is (readable) metadata: an SDK without
/// it is still usable.
pub fn read_metadata(package: &Option<UniPackage>) -> (res: (Option<u32>, Option<String>))
    ensures
        match *package {
            Some(package) => res.0 == package_level(package) && res.1 == package.version,
            None => res.0 is None && res.1 is None,
        },
{
    match package {
        Some(package) => {
            let level = match &package.api_version {
                Some(ApiValue::Text(text)) => parse_u32(trim(text.as_str()).as_str()),
                Some(ApiValue::Number(n)) => if *n <= u32::MAX as u64 {
                    Some(*n as u32)
                } else {
                    None
                },
                _ => None,
            };
            (level, copy_of(&package.version))
        },
        None => (None, None),
    }
}

/// The program `name` among those the SDK ships for CMake.
pub open spec fn cmake_program(platform: Platform, native_root: Seq<char>, name: Seq<char>) -> Seq<char> {
    let tools = joined_path(platform, joined_path(platform, native_root, "build-tools"@), "cmake"@);
    program_of(platform, joined_path(platform, joined_path(platform, tools, "bin"@), name))
}

pub open spec fn toolchain_file_of(platform: Platform, native_root: Seq<char>) -> Seq<char> {
    joined_path(
        platform,
        joined_path(platform, joined_path(platform, native_root, "build"@), "cmake"@),
        "ohos.toolchain.cmake"@,
    )
}

pub open spec fn llvm_root_of(platform: Platform, native_root: Seq<char>) -> Seq<char> {
    joined_path(platform, native_root, "llvm"@)
}

/// The paths in a native SDK directory that loading it asks about.
pub struct SdkPaths {
    pub llvm_root: String,
    pub llvm_bin: String,
    pub sysroot: String,
    pub cmake: String,
    pub ninja: String,
    pub cmake_toolchain_file: String,
    pub metadata: String,
}

pub open spec fn sdk_paths_are(platform: Platform, native_root: Seq<char>, paths: SdkPaths) -> bool {
    &&& paths.llvm_root@ == llvm_root_of(platform, native_root)
    &&& paths.llvm_bin@ == joined_path(platform, paths.llvm_root@, "bin"@)
    &&& paths.sysroot@ == joined_path(platform, native_root, "sysroot"@)
    &&& paths.cmake@ == cmake_program(platform, native_root, "cmake"@)
    &&& paths.ninja@ == cmake_program(platform, native_root, "ninja"@)
    &&& paths.cmake_toolchain_file@ == toolchain_file_of(platform, native_root)
    &&& paths.metadata@ == joined_path(platform, native_root, "oh-uni-package.json"@)
}

pub fn sdk_paths(platform: Platform, native_root: &str) -> (res: SdkPaths)
    ensures
        sdk_paths_are(platform, native_root@, res),
{
    let llvm_root = join(platform, native_root, "llvm");
    let llvm_bin = join(platform, llvm_root.as_str(), "bin");
    let tools = join2(platform, native_root, "build-tools", "cmake");
    let bin = join(platform, tools.as_str(), "bin");
    let cmake = join(platform, bin.as_str(), "cmake");
    let ninja = join(platform, bin.as_str(), "ninja");
    let build = join2(platform, native_root, "build", "cmake");
    SdkPaths {
        llvm_root,
        llvm_bin,
        sysroot: join(platform, native_root, "sysroot"),
        cmake: program_path(platform, cmake.as_str()),
        ninja: program_path(platform, ninja.as_str()),
        cmake_toolchain_file: join(platform, build.as_str(), "ohos.toolchain.cmake"),
        metadata: join(platform, native_root, "oh-uni-package.json"),
    }
}

/// What was found at the paths of a native SDK directory, whose path is canonical.
pub struct Probe {
    pub native_root: String,
    pub llvm_bin_is_dir: bool,
    pub sysroot_is_dir: bool,
    pub cmake_is_file: bool,
    pub cmake_toolchain_file_is_file: bool,
    pub package: Option<UniPackage>,
}

/// The SDK in a directory that has an LLVM toolchain and a sysroot.
pub open spec fn loaded(platform: Platform, probe: Probe, sdk: Sdk) -> bool {
    let root = probe.native_root@;
    &&& sdk.native_root@ == root
    &&& sdk.llvm_root@ == llvm_root_of(platform, root)
    &&& sdk.llvm_bin@ == joined_path(platform, llvm_root_of(platform, root), "bin"@)
    &&& sdk.sysroot@ == joined_path(platform, root, "sysroot"@)
    &&& opt_text(sdk.cmake) == if probe.cmake_is_file {
        Some(cmake_program(platform, root, "cmake"@))
    } else {
        None
    }
    &&& opt_text(sdk.cmake_toolchain_file) == if probe.cmake_toolchain_file_is_file {
        Some(toolchain_file_of(platform, root))
    } else {
        None
    }
    &&& match probe.package {
        Some(package) => sdk.api_version == package_level(package) && sdk.version == package.version,
        None => sdk.api_version is None && sdk.version is None,
    }
}

/// Whether there is an SDK in a native directory, and which.
pub open spec fn load_is(platform: Platform, probe: Probe, res: Option<Sdk>) -> bool {
    match res {
        Some(sdk) => probe.llvm_bin_is_dir && probe.sysroot_is_dir && loaded(platform, probe, sdk),
        None => !probe.llvm_bin_is_dir || !probe.sysroot_is_dir,
    }
}

/// Why a request cannot be served at all; none if it can. This is checked before anything is fetched.
pub open spec fn refusal(request: Request, components: Option<Set<Seq<char>>>) -> Option<Seq<char>> {
    if !wants(components, "native"@) {
        Some(
            "the SDK components must include `native`, which holds the clang toolchain and sysroot cargo-ohos builds with"@,
        )
    } else {
        match request {
            Request::Version(version) => if safe_component(version@) {
                None
            } else {
                Some(
                    "invalid OpenHarmony SDK version `"@ + version@
                        + "`; expected a version such as `6.0.0.1`"@,
                )
            },
            Request::Api(_) => None,
        }
    }
}

fn refuse(request: &Request, components: &Components) -> (res: Option<String>)
    ensures
        opt_text(res) == refusal(*request, components@),
{
    if !components.includes("native") {
        return Some(
            "the SDK components must include `native`, which holds the clang toolchain and sysroot cargo-ohos builds with".to_owned(),
        );
    }
    match request {
        Request::Version(version) => if is_safe_component(version.as_str()) {
            None
        } else {
            Some(
                cat3(
                    "invalid OpenHarmony SDK version `",
                    version.as_str(),
                    "`; expected a version such as `6.0.0.1`",
                ),
            )
        },
        Request::Api(_) => None,
    }
}

/// What was seen last while downloading an SDK.
pub enum DownloadSeen {
    Nothing,
    /// The releases of the mirror.
    Releases(Result<Vec<Release>, String>),
    /// Where the selected release is installed.
    Installed(Result<String, String>),
    /// The SDK in the directory it is installed in.
    Loaded { installed: String, sdk: Option<Sdk> },
}

/// What to do next to download an SDK.
pub enum DownloadStep {
    /// Get the releases listed at this address, by way of this cache directory: `Releases`.
    FetchReleases { url: &'static str, subdir: &'static str },
    /// Install what is selected, with the components asked for: `Installed`.
    Install(Selection),
    /// Load the SDK in this directory: `Loaded`.
    Load(String),
    Done(Result<Sdk, String>),
}

/// The step that follows `seen`.
pub open spec fn download_step(
    request: Request,
    components: Option<Set<Seq<char>>>,
    os: Seq<char>,
    arch: Seq<char>,
    seen: DownloadSeen,
    step: DownloadStep,
) -> bool {
    match refusal(request, components) {
        Some(message) => step matches DownloadStep::Done(Err(error)) && error@ == message,
        None => match seen {
            DownloadSeen::Nothing => step matches DownloadStep::FetchReleases { url, subdir } && url@
                == "https://api.github.com/repos/openharmony-rs/ohos-sdk/releases?per_page=100"@
                && subdir@ == "ohos-sdk"@,
            DownloadSeen::Releases(Err(error)) => step == DownloadStep::Done(Err(error)),
            DownloadSeen::Releases(Ok(releases)) => match step {
                DownloadStep::Install(selection) => select_is(
                    releases@,
                    request,
                    os,
                    arch,
                    Ok(selection),
                ),
                DownloadStep::Done(Err(error)) => select_is(releases@, request, os, arch, Err(error)),
                _ => false,
            },
            DownloadSeen::Installed(Err(error)) => step == DownloadStep::Done(Err(error)),
            DownloadSeen::Installed(Ok(installed)) => step == DownloadStep::Load(installed),
            DownloadSeen::Loaded { installed, sdk: Some(sdk) } => step == DownloadStep::Done(Ok(sdk)),
            DownloadSeen::Loaded { installed, sdk: None } => step matches DownloadStep::Done(Err(error))
                && error@ == "the OpenHarmony SDK installed at "@ + installed@
                + " has no usable `native` component"@,
        },
    }
}

impl Sdk {
    /// The SDK in a native directory, if it has an LLVM toolchain and a sysroot.
    pub fn load(platform: Platform, probe: &Probe) -> (res: Option<Self>)
        ensures
            match res {
                Some(sdk) => probe.llvm_bin_is_dir && probe.sysroot_is_dir && loaded(
                    platform,
                    *probe,
                    sdk,
                ),
                None => !(probe.llvm_bin_is_dir && probe.sysroot_is_dir),
            },
            load_is(platform, *probe, res),
    {
        if !probe.llvm_bin_is_dir || !probe.sysroot_is_dir {
            return None;
        }
        let paths = sdk_paths(platform, probe.native_root.as_str());
        let (api_version, version) = read_metadata(&probe.package);
        Some(
            Sdk {
                native_root: probe.native_root.clone(),
                sysroot: paths.sysroot,
                llvm_root: paths.llvm_root,
                llvm_bin: paths.llvm_bin,
                cmake: if probe.cmake_is_file {
                    Some(paths.cmake)
                } else {
                    None
                },
                cmake_toolchain_file: if probe.cmake_toolchain_file_is_file {
                    Some(paths.cmake_toolchain_file)
                } else {
                    None
                },
                api_version,
                version,
            },
        )
    }

    /// Download and cache the newest matching release of the SDK from the mirror: the step that follows
    /// what was seen last.
    pub fn download(
        request: &Request,
        components: &Components,
        os: &str,
        arch: &str,
        seen: DownloadSeen,
    ) -> (res: DownloadStep)
        ensures
            download_step(*request, components@, os@, arch@, seen, res),
    {
        if let Some(message) = refuse(request, components) {
            return DownloadStep::Done(Err(message));
        }
        match seen {
            DownloadSeen::Nothing => DownloadStep::FetchReleases {
                url: SDK_RELEASES_URL,
                subdir: SDK_CACHE_SUBDIR,
            },
            DownloadSeen::Releases(Err(error)) => DownloadStep::Done(Err(error)),
            DownloadSeen::Releases(Ok(releases)) => match select(releases, request, os, arch) {
                Ok(selection) => DownloadStep::Install(selection),
                Err(error) => DownloadStep::Done(Err(error)),
            },
            DownloadSeen::Installed(Err(error)) => DownloadStep::Done(Err(error)),
            DownloadSeen::Installed(Ok(installed)) => DownloadStep::Load(installed),
            DownloadSeen::Loaded { installed, sdk } => match sdk {
                Some(sdk) => DownloadStep::Done(Ok(sdk)),
                None => DownloadStep::Done(
                    Err(
                        cat3(
                            "the OpenHarmony SDK installed at ",
                            installed.as_str(),
                            " has no usable `native` component",
                        ),
                    ),
                ),
            },
        }
    }
}

} // verus!
