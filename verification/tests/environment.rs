use cargo_ohos::args::CliOptions;
use cargo_ohos::build_env::cmake::{needs_writing, toolchain_file_path, CmakeToolchain};
use cargo_ohos::build_env::environment::path_list;
use cargo_ohos::build_env::{
    build_env_map, generated_dir, BuildEnv, Config, DeriveStep, DirectoryStep, Error, Flags,
    MapStep,
};
use cargo_ohos::command::{parse_invocation, OptionVariables, Options};
use cargo_ohos::digest::{hex, sha256};
use cargo_ohos::ordered::{StringMap, StringSet};
use cargo_ohos::path::{join, Platform};
use cargo_ohos::process::{Outcome, Output, RunError};
use cargo_ohos::run::{derive_build_env, run, BuildSeen, BuildStep, RunSeen, RunStep};
use cargo_ohos::runner::RunnerSeen;
use cargo_ohos::sdk::discovery::cache_paths;
use cargo_ohos::sdk::{
    sdk_paths, ApiValue, CacheEntry, CandidateSeen, CandidateStep, DiscoverStep, DiscoverySeen, Probe, Sdk,
    SdkEntry, UniPackage,
};
use cargo_ohos::shell::{emit, resolved_env, Shell};
use cargo_ohos::target::Target;
use cargo_ohos::toolchain::{contains_libclang, questions, Found, RuntimeLibraryKind, Toolchain};

const TOOLS: [&str; 7] = [
    "clang",
    "clang++",
    "llvm-ar",
    "llvm-ranlib",
    "llvm-strip",
    "llvm-objcopy",
    "llvm-readelf",
];

const LIB_DIRS: [&str; 4] = [
    "aarch64-linux-ohos",
    "arm-linux-ohos",
    "x86_64-linux-ohos",
    "loongarch64-linux-ohos",
];

const LLVM: &str = "/prebuilt/llvm";

/// An SDK and a toolchain on a disk that is only described.
struct Disk {
    platform: Platform,
    native: String,
    api_version: Option<u32>,
    metadata: bool,
    cmake: bool,
    cmake_toolchain_file: bool,
    missing_tools: Vec<&'static str>,
    libclang: bool,
    libcxx_headers: bool,
    runtime_libraries: bool,
    llvm: Option<String>,
    no_inline_flags: bool,
    generator_set: bool,
}

impl Disk {
    fn complete() -> Self {
        Disk {
            platform: Platform::Linux,
            native: "/sdk/native".to_owned(),
            api_version: Some(21),
            metadata: true,
            cmake: true,
            cmake_toolchain_file: true,
            missing_tools: Vec::new(),
            libclang: true,
            libcxx_headers: true,
            runtime_libraries: true,
            llvm: None,
            no_inline_flags: false,
            generator_set: false,
        }
    }

    fn external() -> Self {
        Disk {
            llvm: Some(LLVM.to_owned()),
            ..Self::complete()
        }
    }

    fn sdk(&self) -> Sdk {
        Sdk::load(
            self.platform,
            &Probe {
                native_root: self.native.clone(),
                llvm_bin_is_dir: true,
                sysroot_is_dir: true,
                cmake_is_file: self.cmake,
                cmake_toolchain_file_is_file: self.cmake_toolchain_file,
                package: if self.metadata {
                    Some(UniPackage {
                        api_version: self.api_version.map(|api| ApiValue::Text(api.to_string())),
                        version: Some("6.0.1.112".to_owned()),
                    })
                } else {
                    None
                },
            },
        )
        .unwrap()
    }

    fn found(&self) -> Found {
        let below = |base: &str, part: &str| join(self.platform, base, part);
        let mut files = StringSet::new();
        let mut directories = StringSet::new();
        let root = match &self.llvm {
            Some(llvm) => llvm.clone(),
            None => below(&self.native, "llvm"),
        };
        let exe = if self.platform == Platform::Windows {
            ".exe"
        } else {
            ""
        };
        for tool in TOOLS {
            if !self.missing_tools.contains(&tool) {
                files.insert(below(&below(&root, "bin"), &format!("{tool}{exe}")));
            }
        }
        if self.runtime_libraries {
            for dir in LIB_DIRS {
                files.insert(below(&below(&below(&root, "lib"), dir), "libc++.so"));
            }
        }
        if self.cmake {
            files.insert(sdk_paths(self.platform, &self.native).ninja);
        }
        if self.libcxx_headers {
            directories.insert(below(&below(&root, "include"), "libcxx-ohos"));
        }
        let libclang = match self.platform {
            Platform::Windows => "libclang.dll",
            Platform::Macos => "libclang.dylib",
            Platform::Linux => "libclang.so",
        };
        Found {
            canonical_llvm: Ok(root),
            files,
            directories,
            lib_entries: if self.libclang {
                vec!["aarch64-linux-ohos".to_owned(), libclang.to_owned()]
            } else {
                Vec::new()
            },
            bin_entries: Vec::new(),
        }
    }

    /// The environment, and the toolchain file that was generated for it.
    fn derive(&self, target: &str) -> (Result<BuildEnv, Error>, Option<CmakeToolchain>) {
        let mut config = Config::new(Target::parse(target).unwrap());
        config.llvm = self.llvm.clone();
        config.no_inline_flags = self.no_inline_flags;
        let mut generated = None;
        let mut written = None;
        loop {
            match cargo_ohos::build_env::derive(
                self.platform,
                &config,
                &self.sdk(),
                &self.found(),
                self.generator_set,
                written.take(),
            ) {
                DeriveStep::WriteToolchainFile(file) => {
                    written = Some(Ok(toolchain_file_path(
                        self.platform,
                        &generated_directory(self.platform),
                        &file,
                    )));
                    generated = Some(file);
                }
                DeriveStep::Done(result) => return (result, generated),
            }
        }
    }

    fn build_env(&self, target: &str) -> BuildEnv {
        match self.derive(target).0 {
            Ok(build_env) => build_env,
            Err(error) => panic!("{}", error.message()),
        }
    }

    fn error(&self) -> String {
        match self.derive("aarch64").0 {
            Ok(_) => panic!("derived"),
            Err(error) => error.message(),
        }
    }
}

fn generated_directory(platform: Platform) -> String {
    let target_dir = Some("/target-dir".to_owned());
    match generated_dir(platform, &target_dir, &None, &None, &None, &None) {
        DirectoryStep::Done(Ok(directory)) => directory,
        _ => panic!("the target directory is given"),
    }
}

#[test]
fn path_list_uses_the_platform_separator() {
    let paths = vec!["first".to_owned(), "second".to_owned()];
    let value = match path_list(Platform::Linux, &paths) {
        Ok(value) => value,
        Err(error) => panic!("{}", error.message()),
    };
    let split: Vec<&str> = value.split(':').collect();

    assert_eq!(split, ["first", "second"]);
    let windows = |paths: &[&str]| {
        let paths: Vec<String> = paths.iter().map(|path| path.to_string()).collect();
        path_list(Platform::Windows, &paths).map_err(|error| error.message())
    };
    assert_eq!(windows(&[r"C:\a", "b;c"]), Ok("C:/a;\"b;c\"".to_owned()));
    assert_eq!(
        windows(&["a\"b"]),
        Err("could not construct path list: path segment contains `\"`".to_owned())
    );
    let colon = path_list(Platform::Linux, &vec!["a:b".to_owned()]);
    assert_eq!(
        colon.map_err(|error| error.message()),
        Err("could not construct path list: path segment contains separator `:`".to_owned())
    );
}

#[test]
fn an_external_toolchain_reports_its_runtime_libraries() {
    let build_env = Disk::external().build_env("aarch64");
    let libraries = &build_env.runtime_libraries;
    assert_eq!(libraries.len(), 1);
    assert_eq!(libraries[0].soname, "libc++.so");
    assert_eq!(libraries[0].kind, RuntimeLibraryKind::CxxStdlib);
    assert_eq!(
        libraries[0].path,
        join(Platform::Linux, LLVM, "lib/aarch64-linux-ohos/libc++.so")
    );
    assert!(build_env.toolchain.external);
}

#[test]
fn the_sdk_toolchain_reports_no_runtime_libraries() {
    let build_env = Disk::complete().build_env("aarch64");
    assert_eq!(build_env.runtime_libraries.len(), 0);
    assert!(!build_env.toolchain.external);
}

#[test]
fn external_toolchain_flags_are_inlined_unless_asked_otherwise() {
    let inlined = Disk::external().build_env("aarch64").env;
    let cc = inlined.get("CC_aarch64_unknown_linux_ohos").unwrap();
    assert!(cc.contains("--target=aarch64-linux-ohos"), "{cc}");
    assert!(cc.contains("--sysroot="), "{cc}");
    assert!(cc.contains("-Wno-unused-command-line-argument"), "{cc}");
    assert!(!inlined.contains_key("TARGET_CFLAGS"));
    assert!(!inlined.contains_key("TARGET_CXXFLAGS"));

    // cc-rs cuts the value at whitespace and gets the program and its flags back.
    let parts: Vec<&str> = cc.split_whitespace().collect();
    assert_eq!(
        parts,
        [
            "/prebuilt/llvm/bin/clang",
            "--target=aarch64-linux-ohos",
            "--sysroot=/sdk/native/sysroot",
            "-D__MUSL__",
            "-Wno-unused-command-line-argument"
        ]
    );

    let mut disk = Disk::external();
    disk.no_inline_flags = true;
    let separate = disk.build_env("aarch64").env;
    assert_eq!(
        separate.get("CC_aarch64_unknown_linux_ohos").unwrap(),
        join(Platform::Linux, LLVM, "bin/clang")
    );
    assert!(separate
        .get("TARGET_CFLAGS")
        .unwrap()
        .contains("--target=aarch64-linux-ohos"));
    assert!(separate.get("TARGET_CXXFLAGS").unwrap().contains("--sysroot="));

    // The SDK's own clang knows its target, so its flags stay in the flag variables.
    let sdk_env = Disk::complete().build_env("aarch64").env;
    assert_eq!(
        sdk_env.get("CC_aarch64_unknown_linux_ohos").unwrap(),
        "/sdk/native/llvm/bin/clang"
    );
    assert!(sdk_env.get("TARGET_CFLAGS").unwrap().contains("--sysroot="));
}

#[test]
fn every_variable_has_its_value() {
    let build_env = Disk::complete().build_env("armv7");
    let flags = "--target=armv7-linux-ohos --sysroot=/sdk/native/sysroot -D__MUSL__ -march=armv7-a -mfloat-abi=softfp -mtune=generic-armv7-a -mthumb";
    let (_, generated) = Disk::complete().derive("armv7");
    let directory = generated.unwrap().directory;
    let expected = [
        ("BINDGEN_EXTRA_CLANG_ARGS_armv7_unknown_linux_ohos".to_owned(), format!("{flags} -I/sdk/native/sysroot/usr/include/arm-linux-ohos")),
        ("CARGO_OHOS_API_LEVEL".to_owned(), "21".to_owned()),
        ("CARGO_OHOS_CLANG_TRIPLE".to_owned(), "armv7-linux-ohos".to_owned()),
        ("CARGO_OHOS_SDK_NATIVE".to_owned(), "/sdk/native".to_owned()),
        ("CARGO_OHOS_SYSROOT".to_owned(), "/sdk/native/sysroot".to_owned()),
        ("CARGO_TARGET_ARMV7_UNKNOWN_LINUX_OHOS_LINKER".to_owned(), "/sdk/native/llvm/bin/clang".to_owned()),
        ("CC_armv7-unknown-linux-ohos".to_owned(), "/sdk/native/llvm/bin/clang".to_owned()),
        ("CC_armv7_unknown_linux_ohos".to_owned(), "/sdk/native/llvm/bin/clang".to_owned()),
        ("CLANG_PATH".to_owned(), "/sdk/native/llvm/bin/clang++".to_owned()),
        ("CMAKE".to_owned(), "/sdk/native/build-tools/cmake/bin/cmake".to_owned()),
        ("CMAKE_CXX_COMPILER_armv7_unknown_linux_ohos".to_owned(), "/sdk/native/llvm/bin/clang++".to_owned()),
        ("CMAKE_C_COMPILER_armv7_unknown_linux_ohos".to_owned(), "/sdk/native/llvm/bin/clang".to_owned()),
        ("CMAKE_GENERATOR_armv7_unknown_linux_ohos".to_owned(), "Ninja".to_owned()),
        ("CMAKE_TOOLCHAIN_FILE_armv7_unknown_linux_ohos".to_owned(), format!("/target-dir/ohos-toolchain/{directory}/ohos.toolchain.cmake")),
        ("CXXSTDLIB_armv7_unknown_linux_ohos".to_owned(), "c++".to_owned()),
        ("CXX_armv7-unknown-linux-ohos".to_owned(), "/sdk/native/llvm/bin/clang++".to_owned()),
        ("CXX_armv7_unknown_linux_ohos".to_owned(), "/sdk/native/llvm/bin/clang++".to_owned()),
        ("LIBCLANG_PATH".to_owned(), "/sdk/native/llvm/lib".to_owned()),
        ("OHOS_SDK_NATIVE".to_owned(), "/sdk/native".to_owned()),
        ("PKG_CONFIG_PATH_armv7_unknown_linux_ohos".to_owned(), "/sdk/native/sysroot/usr/lib/pkgconfig:/sdk/native/sysroot/usr/share/pkgconfig".to_owned()),
        ("PKG_CONFIG_SYSROOT_DIR_armv7_unknown_linux_ohos".to_owned(), "/sdk/native/sysroot".to_owned()),
        ("TARGET_AR".to_owned(), "/sdk/native/llvm/bin/llvm-ar".to_owned()),
        ("TARGET_CFLAGS".to_owned(), flags.to_owned()),
        ("TARGET_CPPFLAGS".to_owned(), flags.to_owned()),
        ("TARGET_CXXFLAGS".to_owned(), flags.to_owned()),
        ("TARGET_OBJCOPY".to_owned(), "/sdk/native/llvm/bin/llvm-objcopy".to_owned()),
        ("TARGET_RANLIB".to_owned(), "/sdk/native/llvm/bin/llvm-ranlib".to_owned()),
        ("TARGET_READELF".to_owned(), "/sdk/native/llvm/bin/llvm-readelf".to_owned()),
        ("TARGET_STRIP".to_owned(), "/sdk/native/llvm/bin/llvm-strip".to_owned()),
    ];
    let actual: Vec<(String, String)> =
        (0..build_env.env.len()).map(|i| build_env.env.entry(i)).collect();
    assert_eq!(actual, expected);
    assert_eq!(
        build_env.flags.rustflags[..3],
        [
            "-Clink-arg=-fuse-ld=lld",
            "-Clink-arg=-Wl,--build-id",
            "-Clink-arg=--target=armv7-linux-ohos"
        ]
    );
}

#[test]
fn shell_formats_quote_their_values() {
    let build_env = Disk::complete().build_env("aarch64");

    let sh = emit(&build_env, Shell::Sh).lines.join("\n");
    assert!(
        sh.contains("export TARGET_CFLAGS='--target=aarch64-linux-ohos"),
        "{sh}"
    );
    assert!(sh.contains("export RUSTFLAGS='-Clink-arg="), "{sh}");
    // The encoded form cannot be represented in a shell variable.
    assert!(!sh.contains("CARGO_ENCODED_RUSTFLAGS"), "{sh}");
    // `CC_aarch64-unknown-linux-ohos` is not a valid shell identifier.
    assert!(!sh.contains("export CC_aarch64-"), "{sh}");
    assert!(sh.contains("export CC_aarch64_"), "{sh}");

    let powershell = emit(&build_env, Shell::Powershell).lines.join("\n");
    assert!(
        powershell.contains("$env:TARGET_CFLAGS = '--target="),
        "{powershell}"
    );
    assert!(!powershell.contains("CARGO_ENCODED_RUSTFLAGS"), "{powershell}");
    assert!(resolved_env(&build_env).contains_key("CARGO_ENCODED_RUSTFLAGS"));
}

#[test]
fn quotes_in_values_are_escaped() {
    let mut disk = Disk::complete();
    disk.native = "/it's/native".to_owned();
    let build_env = disk.build_env("aarch64");
    let sh = emit(&build_env, Shell::Sh).lines;
    assert!(sh.contains(&r"export OHOS_SDK_NATIVE='/it'\''s/native'".to_owned()));
    let powershell = emit(&build_env, Shell::Powershell).lines;
    assert!(powershell.contains(&"$env:OHOS_SDK_NATIVE = '/it''s/native'".to_owned()));
}

#[test]
fn whitespace_in_paths_is_reported() {
    let mut disk = Disk::complete();
    disk.native = "/sdk with space/native".to_owned();
    let script = emit(&disk.build_env("aarch64"), Shell::Sh);
    assert!(
        script.warnings[0].contains("A compiler flag contains whitespace"),
        "{:?}",
        script.warnings
    );
    assert!(emit(&Disk::complete().build_env("aarch64"), Shell::Sh).warnings.is_empty());

    // Inlining the flags into `CC` is impossible with such a path.
    disk.llvm = Some(LLVM.to_owned());
    let error = disk.error();
    assert!(error.contains("contains whitespace"), "{error}");
    assert!(error.contains("cc-rs splits the value"), "{error}");
}

/// An external toolchain, an SDK that has nothing but what it must, and flags that tell C and C++
/// apart.
fn plain_parts() -> (Config, Sdk, Target, Toolchain, Flags) {
    let text = |value: &str| value.to_owned();
    let mut config = Config::new(Target::parse("aarch64").unwrap());
    config.llvm = Some(text("/l"));
    let sdk = Sdk {
        native_root: text("/s"),
        sysroot: text("/s/sysroot"),
        llvm_root: text("/s/llvm"),
        llvm_bin: text("/s/llvm/bin"),
        cmake: None,
        cmake_toolchain_file: None,
        api_version: None,
        version: None,
    };
    let toolchain = Toolchain {
        root: text("/l"),
        external: true,
        clang: text("/l/bin/clang"),
        clangxx: text("/l/bin/clang++"),
        ar: text("/l/x"),
        ranlib: text("/l/x"),
        strip: text("/l/x"),
        objcopy: text("/l/x"),
        readelf: text("/l/x"),
        libclang_dir: text("/l/x"),
    };
    let flags = Flags {
        rustflags: Vec::new(),
        cflags: vec![text("-a")],
        cxxflags: vec![text("-b")],
        ldflags: Vec::new(),
        bindgen: Vec::new(),
    };
    (config, sdk, Target::parse("aarch64").unwrap(), toolchain, flags)
}

#[test]
fn each_compiler_gets_its_own_flags() {
    let (mut config, sdk, target, toolchain, flags) = plain_parts();
    let map = |config: &Config| match build_env_map(
        Platform::Linux,
        config,
        &sdk,
        &target,
        &toolchain,
        &flags,
        &None,
        None,
    ) {
        MapStep::Done(Ok(env)) => env,
        _ => panic!("the SDK has no toolchain file"),
    };
    let env = map(&config);
    let get = |name: &str| env.get(name);
    assert_eq!(
        get("CC_aarch64_unknown_linux_ohos").unwrap(),
        "/l/bin/clang -a -Wno-unused-command-line-argument"
    );
    assert_eq!(get("CC_aarch64-unknown-linux-ohos"), get("CC_aarch64_unknown_linux_ohos"));
    assert_eq!(
        get("CXX_aarch64_unknown_linux_ohos").unwrap(),
        "/l/bin/clang++ -b -Wno-unused-command-line-argument"
    );
    assert_eq!(get("TARGET_CFLAGS"), None);
    assert_eq!(get("TARGET_CXXFLAGS"), None);
    assert_eq!(get("TARGET_CPPFLAGS"), None);
    assert_eq!(
        get("CARGO_TARGET_AARCH64_UNKNOWN_LINUX_OHOS_LINKER").unwrap(),
        "/l/bin/clang"
    );
    assert_eq!(get("CMAKE_C_COMPILER_aarch64_unknown_linux_ohos").unwrap(), "/l/bin/clang");
    assert_eq!(get("CMAKE_CXX_COMPILER_aarch64_unknown_linux_ohos").unwrap(), "/l/bin/clang++");
    assert_eq!(get("CLANG_PATH").unwrap(), "/l/bin/clang++");
    assert_eq!(get("CARGO_OHOS_API_LEVEL"), None);
    assert_eq!(get("CMAKE"), None);
    assert_eq!(get("CMAKE_TOOLCHAIN_FILE_aarch64_unknown_linux_ohos"), None);

    config.no_inline_flags = true;
    let env = map(&config);
    assert_eq!(env.get("CC_aarch64_unknown_linux_ohos").unwrap(), "/l/bin/clang");
    assert_eq!(env.get("CXX_aarch64_unknown_linux_ohos").unwrap(), "/l/bin/clang++");
    assert_eq!(env.get("TARGET_CFLAGS").unwrap(), "-a");
    assert_eq!(env.get("TARGET_CPPFLAGS").unwrap(), "-a");
    assert_eq!(env.get("TARGET_CXXFLAGS").unwrap(), "-b");

    // What the SDK has is named.
    let mut sdk = sdk.clone();
    sdk.api_version = Some(21);
    sdk.cmake = Some(r"\s\cmake".to_owned());
    let step = build_env_map(
        Platform::Linux,
        &config,
        &sdk,
        &target,
        &toolchain,
        &flags,
        &None,
        None,
    );
    match step {
        MapStep::Done(Ok(env)) => {
            assert_eq!(env.get("CARGO_OHOS_API_LEVEL").unwrap(), "21");
            assert_eq!(env.get("CMAKE").unwrap(), "/s/cmake");
        }
        _ => panic!("the SDK has no toolchain file"),
    }
}

#[test]
fn the_first_part_with_whitespace_is_named_before_a_file_is_written() {
    let (config, mut sdk, target, mut toolchain, mut flags) = plain_parts();
    sdk.cmake_toolchain_file = Some("/s/file".to_owned());
    let step = |toolchain: &Toolchain, flags: &Flags, file| {
        match build_env_map(
            Platform::Linux,
            &config,
            &sdk,
            &target,
            toolchain,
            flags,
            &None,
            file,
        ) {
            MapStep::WriteToolchainFile(generated) => generated.contents,
            MapStep::Done(Err(Error::WhitespaceInCompilerValue { part })) => part,
            MapStep::Done(Err(error)) => error.message(),
            MapStep::Done(Ok(env)) => {
                env.get("CMAKE_TOOLCHAIN_FILE_aarch64_unknown_linux_ohos").unwrap()
            }
        }
    };
    assert_eq!(
        step(&toolchain, &flags, None),
        "# Generated by cargo-ohos; do not edit.\n\
         set(OHOS_ARCH \"arm64-v8a\")\n\
         include(\"/s/file\")\n\
         set(CMAKE_C_COMPILER \"/l/bin/clang\")\n\
         set(CMAKE_CXX_COMPILER \"/l/bin/clang++\")\n\
         set(CMAKE_ASM_COMPILER \"/l/bin/clang\")\n\
         set(CMAKE_C_FLAGS \"${CMAKE_C_FLAGS} -a\")\n\
         set(CMAKE_ASM_FLAGS \"${CMAKE_ASM_FLAGS} -a\")\n\
         set(CMAKE_CXX_FLAGS \"${CMAKE_CXX_FLAGS} -b\")\n"
    );
    assert_eq!(step(&toolchain, &flags, Some(Ok("/t/file".to_owned()))), "/t/file");
    let refused = Error::MissingTool {
        path: "/t".to_owned(),
    };
    assert_eq!(step(&toolchain, &flags, Some(Err(refused))), "Missing toolchain binary: /t");

    flags.cxxflags.push("-D x".to_owned());
    assert_eq!(step(&toolchain, &flags, None), "-D x");
    toolchain.clangxx = "/l/c lang++".to_owned();
    assert_eq!(step(&toolchain, &flags, None), "/l/c lang++");
    flags.cflags.push("-I a b".to_owned());
    assert_eq!(step(&toolchain, &flags, None), "-I a b");
    toolchain.clang = "/l/c lang".to_owned();
    assert_eq!(step(&toolchain, &flags, None), "/l/c lang");
}

#[test]
fn the_generated_cmake_toolchain_file_configures_the_toolchain() {
    let (result, generated) = Disk::complete().derive("armv7");
    let env = match result {
        Ok(build_env) => build_env.env,
        Err(error) => panic!("{}", error.message()),
    };
    let file = env.get("CMAKE_TOOLCHAIN_FILE_armv7_unknown_linux_ohos").unwrap();
    let generated = generated.unwrap();
    let directory = generated.directory.clone();
    let contents = generated.contents;
    let sdk_file = "/sdk/native/build/cmake/ohos.toolchain.cmake";

    let arch = contents.find("set(OHOS_ARCH \"armeabi-v7a\")").unwrap();
    let included = contents.find(&format!("include(\"{sdk_file}\")")).unwrap();
    let compiler = contents.find("set(CMAKE_C_COMPILER").unwrap();
    // The SDK's file derives its configuration from `OHOS_ARCH` at include time and assigns the
    // compilers itself, so the order is what makes the file work.
    assert!(arch < included, "{contents}");
    assert!(included < compiler, "{contents}");
    assert!(contents.contains("-mthumb"), "{contents}");
    assert!(file.starts_with("/target-dir/"), "{file}");
    assert_eq!(
        file,
        format!("/target-dir/ohos-toolchain/{directory}/ohos.toolchain.cmake")
    );
}

#[test]
fn cmake_uses_the_sdk_ninja_unless_a_generator_is_set() {
    let mut disk = Disk::complete();
    let (result, generated) = disk.derive("aarch64");
    let env = match result {
        Ok(build_env) => build_env.env,
        Err(error) => panic!("{}", error.message()),
    };
    assert_eq!(
        env.get("CMAKE_GENERATOR_aarch64_unknown_linux_ohos").unwrap(),
        "Ninja"
    );
    let contents = generated.unwrap().contents;
    let ninja = "/sdk/native/build-tools/cmake/bin/ninja";
    assert!(
        contents.contains(&format!("set(CMAKE_MAKE_PROGRAM \"{ninja}\"")),
        "{contents}"
    );

    disk.generator_set = true;
    let (result, generated) = disk.derive("aarch64");
    assert!(!generated.unwrap().contents.contains("CMAKE_MAKE_PROGRAM"));
    let env = match result {
        Ok(build_env) => build_env.env,
        Err(error) => panic!("{}", error.message()),
    };
    assert!(!env.contains_key("CMAKE_GENERATOR_aarch64_unknown_linux_ohos"));
}

#[test]
fn the_generated_cmake_toolchain_file_is_stable() {
    let first = Disk::complete().derive("aarch64").1.unwrap();
    let second = Disk::complete().derive("aarch64").1.unwrap();
    assert_eq!(first.directory, second.directory);
    assert!(
        !needs_writing(&Some(first.contents.clone()), &second.contents),
        "the toolchain file was rewritten"
    );
    assert!(needs_writing(&None, &second.contents));
    assert!(needs_writing(&Some("other".to_owned()), &second.contents));
    // It is kept apart by what it holds.
    assert_eq!(
        first.directory,
        format!("aarch64-linux-ohos-{}", &hex(&sha256(first.contents.as_bytes()))[..12])
    );
    let other = Disk::external().derive("aarch64").1.unwrap();
    assert_ne!(first.directory, other.directory);
}

#[test]
fn host_compilers_are_set_on_macos() {
    let mut disk = Disk::complete();
    disk.platform = Platform::Macos;
    let env = disk.build_env("aarch64").env;
    assert_eq!(env.get("HOST_CC").unwrap(), "/usr/bin/cc");
    assert_eq!(env.get("HOST_CXX").unwrap(), "/usr/bin/c++");
    assert!(!Disk::complete().build_env("aarch64").env.contains_key("HOST_CC"));
}

#[test]
fn windows_paths_are_given_with_forward_slashes() {
    let mut disk = Disk::complete();
    disk.platform = Platform::Windows;
    disk.native = r"C:\sdk\native".to_owned();
    let env = disk.build_env("x86_64").env;
    assert_eq!(
        env.get("CC_x86_64_unknown_linux_ohos").unwrap(),
        "C:/sdk/native/llvm/bin/clang.exe"
    );
    assert_eq!(
        env.get("PKG_CONFIG_PATH_x86_64_unknown_linux_ohos").unwrap(),
        "C:/sdk/native/sysroot/usr/lib/pkgconfig;C:/sdk/native/sysroot/usr/share/pkgconfig"
    );
}

fn candidate(path: &str, disk: &Disk) -> Option<Sdk> {
    let mut seen = CandidateSeen {
        loads: Vec::new(),
        entries: None,
    };
    loop {
        match Sdk::from_candidate(disk.platform, path, &seen) {
            CandidateStep::Load(root) => {
                seen.loads.push(if root == disk.native { Some(disk.sdk()) } else { None });
            }
            CandidateStep::List(dir) => {
                let below = disk.native.strip_prefix(&format!("{dir}/"));
                seen.entries = Some(below.map(|rest| {
                    vec![SdkEntry {
                        name: rest.split('/').next().unwrap().to_owned(),
                        has_native: rest.split('/').nth(1) == Some("native"),
                    }]
                }));
            }
            CandidateStep::Done(result) => return result,
        }
    }
}

/// Looks for an SDK where the disk holds just one, and `cache` the given entry.
fn discover(
    variables: &[(&str, &str)],
    disk: &Disk,
    cache: &str,
    cached: Option<&str>,
    marked: bool,
) -> Result<Sdk, Error> {
    let mut env = StringMap::new();
    for (name, value) in variables {
        env.insert(name.to_string(), value.to_string());
    }
    let mut seen = DiscoverySeen {
        outcomes: Vec::new(),
        cached: None,
    };
    loop {
        match Sdk::discover(disk.platform, &None, &env, cache, &seen) {
            DiscoverStep::TryCandidate(path) => seen.outcomes.push(candidate(&path, disk)),
            DiscoverStep::TryCache(dir) => {
                let entries: Vec<CacheEntry> = cached
                    .iter()
                    .map(|name| {
                        let paths = cache_paths(disk.platform, &dir, name, "linux");
                        CacheEntry {
                            complete: marked,
                            sdk: candidate(&paths.base, disk),
                        }
                    })
                    .collect();
                seen.cached = Some(Sdk::from_cache(&entries));
            }
            DiscoverStep::Done(result) => return result,
        }
    }
}

fn native_root(found: Result<Sdk, Error>) -> String {
    match found {
        Ok(sdk) => sdk.native_root,
        Err(error) => panic!("{}", error.message()),
    }
}

fn not_found(found: Result<Sdk, Error>) -> String {
    match found {
        Ok(sdk) => panic!("found {}", sdk.native_root),
        Err(error) => error.message(),
    }
}

#[test]
fn the_sdk_is_found_through_the_environment() {
    let disk = Disk::complete();
    for variable in ["OHOS_SDK_NATIVE", "OHOS_NDK_HOME", "OHOS_SDK_HOME"] {
        let found = discover(&[(variable, &disk.native)], &disk, "/cache", None, false);
        assert_eq!(native_root(found), disk.native, "{variable}");
    }
    // The parent of `native` works too.
    let found = discover(&[("OHOS_SDK_HOME", "/sdk")], &disk, "/cache", None, false);
    assert_eq!(native_root(found), disk.native);
}

#[test]
fn the_sdk_metadata_is_reported() {
    let build_env = Disk::complete().build_env("aarch64");
    assert_eq!(build_env.sdk.api_version, Some(21));
    assert_eq!(build_env.sdk.version.as_deref(), Some("6.0.1.112"));
    assert_eq!(build_env.env.get("CARGO_OHOS_API_LEVEL").unwrap(), "21");
}

#[test]
fn a_missing_sdk_is_reported_with_what_was_tried() {
    let disk = Disk::complete();
    let message = not_found(discover(
        &[("OHOS_SDK_NATIVE", "/empty")],
        &disk,
        "/cache",
        None,
        false,
    ));
    assert!(message.contains("Could not find the OpenHarmony native SDK"), "{message}");
    assert!(message.contains("$OHOS_SDK_NATIVE = "), "{message}");
}

#[test]
fn a_downloaded_sdk_is_used_when_nothing_is_configured() {
    // The layout `init sdk` leaves in the cache: `<version>/<host>/<api level>/<component>`.
    let cache = "/cache/cargo-ohos/ohos-sdk";
    let mut disk = Disk::complete();
    disk.native = format!("{cache}/6.1/linux/21/native");
    let found = discover(&[], &disk, cache, Some("6.1"), true);
    assert_eq!(native_root(found), disk.native);

    let message = not_found(discover(&[], &disk, "/empty-cache/ohos-sdk", None, false));
    assert!(message.contains("Could not find the OpenHarmony native SDK"), "{message}");
    assert!(message.contains("no SDK downloaded into"), "{message}");

    // Not if it was not installed completely, nor if another is configured.
    not_found(discover(&[], &disk, cache, Some("6.1"), false));
    not_found(discover(&[("OHOS_SDK_HOME", "/empty")], &disk, cache, Some("6.1"), true));
}

fn no_variables() -> OptionVariables {
    OptionVariables {
        llvm: None,
        download_prebuilt: None,
        target: None,
    }
}

fn options(cli: CliOptions, variables: OptionVariables) -> Result<(Options, Option<String>), String> {
    Options::from_cli(cli, variables)
}

/// Gets the build environment the options ask for from the disk; the second part is what was done.
fn build(options: &Options, disk: &Disk) -> (Result<BuildEnv, String>, Vec<String>) {
    let mut taken = Vec::new();
    let mut seen = BuildSeen {
        sdk: None,
        prebuilt: None,
        derived: None,
    };
    loop {
        match derive_build_env(options, &seen) {
            BuildStep::Discover(_) => {
                taken.push("discover".to_owned());
                seen.sdk = Some(Ok(disk.sdk()));
            }
            BuildStep::ResolvePrebuilt(version) => {
                taken.push(format!("prebuilt {version}"));
                seen.prebuilt = Some(Ok(LLVM.to_owned()));
            }
            BuildStep::Derive(config) => {
                taken.push("derive".to_owned());
                let mut disk = Disk {
                    missing_tools: Vec::new(),
                    native: disk.native.clone(),
                    llvm: None,
                    ..*disk
                };
                disk.llvm = config.llvm;
                disk.no_inline_flags = config.no_inline_flags;
                let (result, _) = disk.derive(&config.target.rust_triple);
                seen.derived = Some(result.map_err(|error| error.message()));
            }
            BuildStep::Accept => {
                return (seen.derived.unwrap(), taken);
            }
            BuildStep::Fail(message) => return (Err(message), taken),
        }
    }
}

fn build_error(cli: CliOptions, disk: &Disk) -> String {
    let (options, _) = options(cli, no_variables()).unwrap_or_else(|error| panic!("{error}"));
    match build(&options, disk).0 {
        Ok(_) => panic!("built"),
        Err(error) => error,
    }
}

#[test]
fn min_api_gates_the_sdk() {
    let disk = Disk::complete();
    let with_min = |min: u32| {
        let mut cli = CliOptions::new();
        cli.min_api = Some(min);
        cli
    };
    let (enough, _) = options(with_min(21), no_variables()).unwrap_or_else(|e| panic!("{e}"));
    assert!(build(&enough, &disk).0.is_ok());
    let error = build_error(with_min(22), &disk);
    assert!(error.contains("has API level 21"), "{error}");
    assert!(error.contains("--min-api requires at least 22"), "{error}");

    let mut without_metadata = Disk::complete();
    without_metadata.metadata = false;
    let error = build_error(with_min(14), &without_metadata);
    assert!(error.contains("does not declare an API level"), "{error}");
}

#[test]
fn the_sdk_is_checked_before_a_toolchain_is_downloaded() {
    let prebuilt = |min: u32| {
        let mut cli = CliOptions::new();
        cli.download_prebuilt = Some("19".to_owned());
        cli.min_api = Some(min);
        options(cli, no_variables()).unwrap_or_else(|e| panic!("{e}")).0
    };
    let (result, taken) = build(&prebuilt(21), &Disk::complete());
    assert!(result.unwrap_or_else(|e| panic!("{e}")).toolchain.external);
    assert_eq!(taken, ["discover", "prebuilt 19", "derive"]);
    let (result, taken) = build(&prebuilt(22), &Disk::complete());
    assert!(result.is_err());
    assert_eq!(taken, ["discover"]);
}

#[test]
fn an_unknown_target_is_rejected() {
    let mut cli = CliOptions::new();
    cli.target = Some("aarch64-linux-android".to_owned());
    let error = build_error(cli, &Disk::complete());
    assert!(error.contains("is not a known OpenHarmony target"), "{error}");
}

#[test]
fn conflicting_toolchain_sources_are_rejected() {
    let refused = |cli: CliOptions, variables: OptionVariables| match options(cli, variables) {
        Ok(_) => panic!("accepted"),
        Err(message) => message,
    };
    let mut cli = CliOptions::new();
    cli.llvm = Some(LLVM.to_owned());
    cli.download_prebuilt = Some("19".to_owned());
    assert!(refused(cli, no_variables()).contains("cannot be used together"));

    let variables = OptionVariables {
        llvm: Some(LLVM.to_owned()),
        download_prebuilt: Some("19".to_owned()),
        target: None,
    };
    assert!(refused(CliOptions::new(), variables).contains("are both set"));
}

#[test]
fn the_environment_selects_a_toolchain_when_no_option_does() {
    let variables = OptionVariables {
        llvm: Some(LLVM.to_owned()),
        download_prebuilt: None,
        target: None,
    };
    let (options, _) = options(CliOptions::new(), variables).unwrap_or_else(|e| panic!("{e}"));
    let build_env = build(&options, &Disk::complete()).0.unwrap_or_else(|e| panic!("{e}"));
    assert!(build_env.toolchain.external);
    assert_eq!(build_env.toolchain.root, LLVM);
}

#[test]
fn a_directory_that_is_not_a_toolchain_is_rejected() {
    let mut disk = Disk::external();
    disk.libcxx_headers = false;
    let error = disk.error();
    assert!(
        error.contains("does not look like an OpenHarmony LLVM toolchain"),
        "{error}"
    );
    assert!(error.contains("include/libcxx-ohos"), "{error}");
}

#[test]
fn a_toolchain_without_its_cxx_runtime_is_rejected() {
    let mut disk = Disk::external();
    disk.runtime_libraries = false;
    let error = disk.error();
    assert!(error.contains("missing the C++ runtime library"), "{error}");
    assert!(error.contains("libc++.so"), "{error}");
}

#[test]
fn a_missing_tool_names_the_tool() {
    let mut disk = Disk::complete();
    disk.missing_tools = vec!["llvm-ar"];
    let error = disk.error();
    assert!(error.contains("Missing toolchain binary"), "{error}");
    assert!(error.contains("llvm-ar"), "{error}");
    for tool in TOOLS {
        disk.missing_tools = vec![tool];
        assert!(disk.error().ends_with(tool), "{tool}");
    }
}

#[test]
fn a_missing_libclang_is_rejected() {
    let mut disk = Disk::complete();
    disk.libclang = false;
    let error = disk.error();
    assert!(error.contains("No libclang shared library found"), "{error}");
    let names = |list: &[&str]| list.iter().map(|name| name.to_string()).collect::<Vec<_>>();
    assert!(contains_libclang(Platform::Linux, &names(&["libclang.so.15"])));
    assert!(contains_libclang(Platform::Macos, &names(&["x", "libclang.dylib"])));
    assert!(!contains_libclang(Platform::Linux, &names(&["libclang-cpp.so", "libclang.dll"])));
}

#[test]
fn a_toolchain_that_cannot_be_resolved_is_reported() {
    let disk = Disk::external();
    let mut found = disk.found();
    found.canonical_llvm = Err("no such directory".to_owned());
    let error = match Toolchain::resolve(Platform::Linux, &disk.sdk(), &disk.llvm, &found) {
        Ok(_) => panic!("resolved"),
        Err(error) => error.message(),
    };
    assert_eq!(error, "/prebuilt/llvm: no such directory");

    let mut bin = disk.found();
    bin.bin_entries = vec!["libclang.dll".to_owned()];
    bin.lib_entries = Vec::new();
    assert!(Toolchain::resolve(Platform::Linux, &disk.sdk(), &disk.llvm, &bin).is_err());
}

#[test]
fn what_is_asked_of_the_disk_is_what_is_used() {
    let disk = Disk::external();
    let target = Target::parse("armv7").unwrap();
    let asked = questions(Platform::Linux, &disk.sdk(), LLVM, &target);
    assert_eq!(asked.files.len(), TOOLS.len() + 2);
    for (file, tool) in asked.files.iter().zip(TOOLS) {
        assert_eq!(*file, format!("/prebuilt/llvm/bin/{tool}"));
    }
    assert_eq!(asked.files[7], "/prebuilt/llvm/lib/arm-linux-ohos/libc++.so");
    assert_eq!(asked.files[8], "/sdk/native/build-tools/cmake/bin/ninja");
    assert_eq!(asked.directories, ["/prebuilt/llvm/include/libcxx-ohos"]);
    assert_eq!((asked.lib.as_str(), asked.bin.as_str()), ("/prebuilt/llvm/lib", "/prebuilt/llvm/bin"));
}

#[test]
fn an_sdk_without_cmake_omits_the_cmake_variables() {
    let mut disk = Disk::complete();
    disk.cmake = false;
    disk.cmake_toolchain_file = false;
    let env = disk.build_env("aarch64").env;
    assert!(!env.contains_key("CMAKE"));
    assert!(!env.contains_key("CMAKE_GENERATOR_aarch64_unknown_linux_ohos"));
    assert!(!env.contains_key("CMAKE_TOOLCHAIN_FILE_aarch64_unknown_linux_ohos"));
    // The compilers are still useful on their own.
    assert!(env.contains_key("CMAKE_C_COMPILER_aarch64_unknown_linux_ohos"));
}

#[test]
fn an_sdk_path_that_cannot_be_listed_is_reported() {
    let mut disk = Disk::complete();
    disk.native = "/sdk:2/native".to_owned();
    assert_eq!(
        disk.error(),
        "could not construct path list: path segment contains separator `:`"
    );
}

#[test]
fn an_unsupported_cargo_subcommand_is_rejected() {
    let error = match parse_invocation(vec!["publish".to_owned()]) {
        Ok(_) => panic!("accepted"),
        Err(error) => error,
    };
    assert!(error.contains("unsupported cargo subcommand"), "{error}");
    assert!(error.contains("build"), "{error}");
}

#[test]
fn an_invalid_prebuilt_version_is_rejected() {
    let mut cli = CliOptions::new();
    cli.download_prebuilt = Some("../etc".to_owned());
    assert!(options(cli, no_variables()).is_err());
}

#[test]
fn the_default_target_is_announced_on_stderr() {
    let (options, note) =
        options(CliOptions::new(), no_variables()).unwrap_or_else(|error| panic!("{error}"));
    assert!(note.unwrap().contains("no target given, defaulting to"));
    let build_env = build(&options, &Disk::complete()).0.unwrap_or_else(|e| panic!("{e}"));
    let script = emit(&build_env, Shell::Sh).lines.join("\n");
    assert!(!script.contains("no target given"), "{script}");
    assert!(script.contains("aarch64-linux-ohos"), "{script}");
}

#[test]
fn cargo_build_target_selects_the_target() {
    let variables = OptionVariables {
        llvm: None,
        download_prebuilt: None,
        target: Some("armv7-unknown-linux-ohos".to_owned()),
    };
    let (options, _) = options(CliOptions::new(), variables).unwrap_or_else(|e| panic!("{e}"));
    let build_env = build(&options, &Disk::complete()).0.unwrap_or_else(|e| panic!("{e}"));
    assert_eq!(build_env.target.rust_triple, "armv7-unknown-linux-ohos");
}

#[test]
fn the_manifest_path_selects_the_target_directory() {
    let step = |target_dir: Option<&str>, ran: Option<Outcome>, parsed: Option<Result<String, String>>| {
        generated_dir(
            Platform::Linux,
            &target_dir.map(str::to_owned),
            &Some("/bin/cargo".to_owned()),
            &Some("/project/Cargo.toml".to_owned()),
            &ran,
            &parsed,
        )
    };
    match step(None, None, None) {
        DirectoryStep::RunMetadata(command) => assert_eq!(
            command.join(" "),
            "/bin/cargo metadata --format-version 1 --no-deps --manifest-path /project/Cargo.toml"
        ),
        _ => panic!("cargo is not asked"),
    }
    let output = |code: i32, stderr: &str| {
        Some(Ok(Output {
            code: Some(code),
            stdout: Vec::new(),
            stderr: stderr.as_bytes().to_vec(),
        }))
    };
    assert!(matches!(step(None, output(0, ""), None), DirectoryStep::ParseMetadata));
    assert!(matches!(
        step(None, output(0, ""), Some(Ok("/project/target".to_owned()))),
        DirectoryStep::Done(Ok(path)) if path == "/project/target/ohos-toolchain"
    ));
    assert!(matches!(
        step(Some("/t"), None, None),
        DirectoryStep::Done(Ok(path)) if path == "/t/ohos-toolchain"
    ));
    let message = |step: DirectoryStep| match step {
        DirectoryStep::Done(Err(error)) => error.message(),
        _ => panic!("did not fail"),
    };
    let prefix = "could not determine the cargo target directory via `cargo metadata`: ";
    assert_eq!(
        message(step(None, output(101, " no manifest\n"), None)),
        format!("{prefix}no manifest")
    );
    assert_eq!(
        message(step(None, output(0, ""), Some(Err("eof".to_owned())))),
        format!("{prefix}unexpected `cargo metadata` output: eof")
    );
    let missing = Some(Err(RunError {
        not_found: true,
        message: "gone".to_owned(),
    }));
    assert_eq!(message(step(None, missing, None)), format!("{prefix}gone"));
}

const RUNNER_VAR: &str = "CARGO_TARGET_AARCH64_UNKNOWN_LINUX_OHOS_RUNNER";
const RUNTIME_LIBRARIES_VAR: &str = "OHOS_TEST_RUNNER_RUNTIME_LIBRARIES";

/// What the programs on the path of a process do.
struct Tools {
    /// The exit code of cargo.
    cargo: i32,
    /// What the runner prints as its version: none if it cannot, and no runner at all if outer none.
    runner: Option<Option<&'static str>>,
}

/// How a run ended, and what cargo was given.
struct Ran {
    end: Result<u8, String>,
    cargo: Option<(Vec<String>, Option<StringMap>)>,
    unset: Vec<String>,
    /// What was asked of the runner.
    asked: Vec<Vec<String>>,
    warnings: Vec<String>,
    help_printed: bool,
}

impl Ran {
    fn env(&self, name: &str) -> Option<String> {
        match &self.cargo {
            Some((_, Some(env))) if !self.unset.contains(&name.to_owned()) => env.get(name),
            _ => None,
        }
    }

    fn args(&self) -> Vec<String> {
        self.cargo.as_ref().unwrap().0[1..].to_vec()
    }

    fn fails_with(&self, parts: &[&str]) {
        let message = self.end.clone().unwrap_err();
        for part in parts {
            assert!(message.contains(part), "{message}");
        }
        assert!(self.cargo.is_none());
    }
}

fn cargo_ohos(args: &[&str], disk: &Disk, ambient: &[(&str, &str)], tools: &Tools) -> Ran {
    let mut all = vec![args[0].to_owned(), "--target".to_owned(), "aarch64".to_owned()];
    all.extend(args[1..].iter().map(|arg| arg.to_string()));
    let invocation = parse_invocation(all).unwrap_or_else(|error| panic!("{error}"));
    let mut environment = StringMap::new();
    for (name, value) in ambient {
        environment.insert(name.to_string(), value.to_string());
    }
    let mut seen = RunSeen {
        built: None,
        runner: RunnerSeen {
            found: None,
            version: None,
        },
        ran: None,
    };
    let mut ran = Ran {
        end: Ok(0),
        cargo: None,
        unset: Vec::new(),
        asked: Vec::new(),
        warnings: Vec::new(),
        help_printed: false,
    };
    loop {
        match run(disk.platform, &invocation, &environment, &seen) {
            RunStep::Build => {
                let result = disk.derive("aarch64").0;
                seen.built = Some(result.map_err(|error| error.message()));
            }
            RunStep::FindRunner(name) => {
                assert_eq!(name, "ohos-test-runner");
                seen.runner.found = Some(tools.runner.map(|_| "/tools/ohos-test-runner".to_owned()))
            }
            RunStep::AskVersion(command) => {
                ran.asked.push(command);
                let version = tools.runner.unwrap();
                seen.runner.version = Some(Ok(Output {
                    code: Some(if version.is_some() { 0 } else { 1 }),
                    stdout: format!("ohos-test-runner {}\n", version.unwrap_or_default()).into_bytes(),
                    stderr: Vec::new(),
                }));
            }
            RunStep::ShowHelp(command) => {
                ran.cargo = Some((command, None));
                seen.ran = Some(Ok(Some(tools.cargo)));
            }
            RunStep::Spawn {
                command,
                env,
                unset,
                warnings,
            } => {
                ran.cargo = Some((command, Some(env)));
                ran.unset = unset;
                ran.warnings = warnings;
                seen.ran = Some(Ok(Some(tools.cargo)));
            }
            RunStep::PrintOptions { code } => {
                ran.help_printed = true;
                ran.end = Ok(code);
                return ran;
            }
            RunStep::Exit { code } => {
                ran.end = Ok(code);
                return ran;
            }
            RunStep::Fail(message) => {
                ran.end = Err(message);
                return ran;
            }
        }
    }
}

const NO_RUNNER: Tools = Tools {
    cargo: 0,
    runner: None,
};

fn with_runner(version: &'static str) -> Tools {
    Tools {
        cargo: 0,
        runner: Some(Some(version)),
    }
}

#[test]
fn cargo_receives_the_target_and_the_environment() {
    let ran = cargo_ohos(&["build", "--release"], &Disk::complete(), &[], &NO_RUNNER);
    assert_eq!(ran.end, Ok(0));
    assert_eq!(
        ran.args(),
        ["build", "--target=aarch64-unknown-linux-ohos", "--release"],
        "the target has to come right after the subcommand"
    );
    assert!(ran.env("CC_aarch64_unknown_linux_ohos").unwrap().ends_with("clang"));
    assert!(ran
        .env("CARGO_ENCODED_RUSTFLAGS")
        .unwrap()
        .contains("-Clink-arg=--sysroot="));
    // `RUSTFLAGS` would override the encoded form.
    assert_eq!(ran.env("RUSTFLAGS"), None);
    assert_eq!(ran.unset, ["RUSTFLAGS"]);
    assert_eq!(ran.env(RUNNER_VAR), None, "a build runs nothing");
}

#[test]
fn the_target_is_inserted_before_the_separator() {
    let ran = cargo_ohos(
        &["test", "--no-run", "--", "--nocapture"],
        &Disk::complete(),
        &[],
        &NO_RUNNER,
    );
    assert_eq!(
        ran.args(),
        [
            "test",
            "--target=aarch64-unknown-linux-ohos",
            "--no-run",
            "--",
            "--nocapture"
        ]
    );
}

#[test]
fn ambient_rustflags_are_appended_to_the_derived_ones() {
    let ran = cargo_ohos(
        &["build"],
        &Disk::complete(),
        &[("RUSTFLAGS", "-Cdebuginfo=0")],
        &NO_RUNNER,
    );
    let rustflags = ran.env("CARGO_ENCODED_RUSTFLAGS").unwrap();
    let flags: Vec<&str> = rustflags.split('\u{1f}').collect();
    assert_eq!(flags.last(), Some(&"-Cdebuginfo=0"), "{flags:?}");
    assert!(flags.contains(&"-Clink-arg=-fuse-ld=lld"), "{flags:?}");

    // The encoded form wins, and what went through the tool already is not added to.
    let again = cargo_ohos(
        &["build"],
        &Disk::complete(),
        &[("CARGO_ENCODED_RUSTFLAGS", &rustflags), ("RUSTFLAGS", "-Cignored")],
        &NO_RUNNER,
    );
    assert_eq!(again.env("CARGO_ENCODED_RUSTFLAGS").unwrap(), rustflags);
}

#[test]
fn ambient_target_cflags_compose_with_the_derived_ones() {
    let ran = cargo_ohos(
        &["build"],
        &Disk::complete(),
        &[("TARGET_CFLAGS", "-fsanitize=address")],
        &NO_RUNNER,
    );
    let cflags = ran.env("TARGET_CFLAGS").unwrap();
    assert!(cflags.starts_with("--target=aarch64-linux-ohos"), "{cflags}");
    assert!(cflags.ends_with("-fsanitize=address"), "{cflags}");
}

#[test]
fn a_masked_plain_cflags_is_reported() {
    let ran = cargo_ohos(
        &["build"],
        &Disk::complete(),
        &[("CFLAGS", "-fsanitize=address")],
        &NO_RUNNER,
    );
    assert!(ran.warnings[0].contains("$CFLAGS is set"), "{:?}", ran.warnings);
    assert!(ran.warnings[0].contains("$TARGET_CFLAGS"), "{:?}", ran.warnings);
    let without = cargo_ohos(&["build"], &Disk::complete(), &[], &NO_RUNNER);
    assert_eq!(ran.env("TARGET_CFLAGS"), without.env("TARGET_CFLAGS"));
}

#[test]
fn the_exit_code_of_cargo_is_propagated() {
    let tools = Tools {
        cargo: 7,
        runner: None,
    };
    let ran = cargo_ohos(&["build"], &Disk::complete(), &[], &tools);
    assert_eq!(ran.end, Ok(7));
}

#[test]
fn a_recent_enough_runner_is_configured_for_the_target() {
    let ran = cargo_ohos(&["test"], &Disk::complete(), &[], &with_runner("0.1.5"));
    assert_eq!(ran.env(RUNNER_VAR).unwrap(), "/tools/ohos-test-runner");
    // The SDK toolchain needs nothing bundled.
    assert_eq!(ran.env(RUNTIME_LIBRARIES_VAR), None);
    // Only `--version` was asked of the runner; cargo runs it, not us.
    assert_eq!(ran.asked, [["/tools/ohos-test-runner", "--version"]]);
    assert_eq!(ran.cargo.unwrap().0[0], "cargo");
}

#[test]
fn an_external_toolchain_sends_its_runtime_libraries_to_the_device() {
    let ran = cargo_ohos(&["test"], &Disk::external(), &[], &with_runner("0.1.5"));
    let libraries = ran.env(RUNTIME_LIBRARIES_VAR).unwrap();
    let paths: Vec<&str> = libraries.split(':').collect();
    assert_eq!(
        paths,
        [join(Platform::Linux, LLVM, "lib/aarch64-linux-ohos/libc++.so")],
        "the C++ runtime the binary links has to travel to the device"
    );
}

#[test]
fn a_build_does_not_need_a_runner() {
    let ran = cargo_ohos(&["build"], &Disk::complete(), &[], &NO_RUNNER);
    assert_eq!(ran.end, Ok(0));
    assert_eq!(ran.env(RUNNER_VAR), None);
}

#[test]
fn no_runner_at_all_is_reported() {
    let ran = cargo_ohos(&["test"], &Disk::complete(), &[], &NO_RUNNER);
    ran.fails_with(&[
        "runs binaries on a connected device",
        "cargo install --locked ohos-test-runner",
    ]);
}

#[test]
fn an_outdated_runner_is_rejected() {
    let ran = cargo_ohos(&["test"], &Disk::complete(), &[], &with_runner("0.1.4"));
    ran.fails_with(&["is version 0.1.4", "0.1.5 or newer"]);
}

#[test]
fn a_runner_without_version_output_is_rejected() {
    let tools = Tools {
        cargo: 0,
        runner: Some(None),
    };
    let ran = cargo_ohos(&["test"], &Disk::complete(), &[], &tools);
    ran.fails_with(&["Could not determine the version"]);
}

#[test]
fn a_configured_foreign_runner_is_left_alone() {
    let ran = cargo_ohos(
        &["test"],
        &Disk::complete(),
        &[(RUNNER_VAR, "qemu-aarch64 -L /sysroot")],
        &with_runner("0.1.4"),
    );
    assert_eq!(ran.end, Ok(0));
    // The child inherits the variable as it is.
    assert_eq!(ran.env(RUNNER_VAR), None);
}

#[test]
fn a_configured_outdated_runner_is_still_rejected() {
    let ran = cargo_ohos(
        &["test"],
        &Disk::complete(),
        &[(RUNNER_VAR, "/tools/ohos-test-runner")],
        &with_runner("0.1.4"),
    );
    ran.fails_with(&["is version 0.1.4"]);
    let recent = cargo_ohos(
        &["test"],
        &Disk::complete(),
        &[(RUNNER_VAR, "/tools/ohos-test-runner --verbose")],
        &with_runner("0.2.0"),
    );
    assert_eq!(recent.end, Ok(0));
}

#[test]
fn no_run_needs_no_runner() {
    let ran = cargo_ohos(&["test", "--no-run"], &Disk::complete(), &[], &NO_RUNNER);
    assert_eq!(ran.end, Ok(0));
    assert_eq!(ran.env(RUNNER_VAR), None);
}

#[test]
fn cargo_help_needs_no_runner_but_target_help_does() {
    // `cargo ohos test --help` only prints help.
    let ran = cargo_ohos(&["test", "--help"], &Disk::complete(), &[], &NO_RUNNER);
    assert!(ran.help_printed);
    assert_eq!(ran.args(), ["test", "--help"]);

    // `cargo ohos run -- --help` runs the binary on the device.
    let ran = cargo_ohos(&["run", "--", "--help"], &Disk::complete(), &[], &NO_RUNNER);
    ran.fails_with(&["runs binaries on a connected device"]);
}
