//! The environment native code is cross-compiled in.

use crate::ordered::StringMap;
use crate::path::{join as join_path, joined_path, posix, posix_of, Platform};
use crate::process::{argv, succeeded, Outcome};
use crate::sdk::{cmake_program, sdk_paths, Sdk};
use crate::target::Target;
use crate::text::{
    cat2, cat3, decimal, from_utf8_lossy, join, joined, opt_text, texts, trim, trimmed,
    utf8_lossy,
};
use crate::toolchain::{
    law_resolving_succeeds_if_it_can, libcxx_of, resolvable, resolve_is, root_of,
    runtime_libraries_are, tool_path, Found, RuntimeLibrary, Toolchain,
};
use vstd::prelude::*;

pub mod cmake;
pub mod environment;
pub mod flags;

use self::cmake::{generate_cmake_toolchain, is_toolchain_file, CmakeToolchain};
use self::environment::{
    carried, first_spaced, inline_parts, inline_value, is_join_error, lemma_spaced_part_of_both,
    lemma_tags, listable, pkg_config_paths, set_cmake, set_compilers, set_flags,
    set_host_compilers, set_linker, set_pkg_config, set_sdk, set_tools, spaced_of, tag,
    with_cmake, with_compilers, with_flags, with_host_compilers, with_linker, with_pkg_config,
    with_sdk, with_tools, Env,
};
use self::flags::{bindgen_of, cflags_of, flags_are};

pub use self::flags::Flags;

verus! {

/// Why no environment could be derived.
#[derive(Debug)]
pub enum Error {
    SdkNotFound { tried: Vec<String> },
    MissingTool { path: String },
    InvalidToolchain { path: String },
    MissingLibclang { path: String },
    MissingRuntimeLibrary { path: String },
    WhitespaceInCompilerValue { part: String },
    Io { path: String, source: String },
    JoinPaths { source: String },
    CargoMetadata { message: String },
}

/// How an error is reported.
pub open spec fn error_message(error: Error) -> Seq<char> {
    match error {
        Error::SdkNotFound { tried } => {
            "Could not find the OpenHarmony native SDK. Point --sdk or $OHOS_SDK_NATIVE at the `native` directory of the SDK, or set $DEVECO_SDK_HOME. Tried: "@
                + joined(texts(tried@), "; "@)
        },
        Error::MissingTool { path } => "Missing toolchain binary: "@ + path@,
        Error::InvalidToolchain { path } => {
            path@
                + " does not look like an OpenHarmony LLVM toolchain (expected `bin/clang` and `include/libcxx-ohos`). Point --llvm at the `llvm` directory of an OpenHarmony SDK or an unpacked prebuilt toolchain (https://github.com/openharmony-rs/ohos-llvm-toolchains)."@
        },
        Error::MissingLibclang { path } => {
            "No libclang shared library found in "@ + path@
                + ". bindgen would silently fall back to whatever libclang the host provides instead of the toolchain's."@
        },
        Error::MissingRuntimeLibrary { path } => {
            "The toolchain is missing the C++ runtime library "@ + path@
                + ", which an application linked with it has to bundle."@
        },
        Error::WhitespaceInCompilerValue { part } => {
            "`"@ + part@
                + "` contains whitespace, which `CC` cannot carry because cc-rs splits the value on it. Use paths without spaces for the SDK and LLVM toolchain."@
        },
        Error::Io { path, source } => path@ + ": "@ + source@,
        Error::JoinPaths { source } => "could not construct path list: "@ + source@,
        Error::CargoMetadata { message } => {
            "could not determine the cargo target directory via `cargo metadata`: "@ + message@
        },
    }
}

impl Error {
    pub fn message(&self) -> (res: String)
        ensures
            res@ == error_message(*self),
    {
        match self {
            Error::SdkNotFound { tried } => cat2(
                "Could not find the OpenHarmony native SDK. Point --sdk or $OHOS_SDK_NATIVE at the `native` directory of the SDK, or set $DEVECO_SDK_HOME. Tried: ",
                join(tried, "; ").as_str(),
            ),
            Error::MissingTool { path } => cat2("Missing toolchain binary: ", path.as_str()),
            Error::InvalidToolchain { path } => cat2(
                path.as_str(),
                " does not look like an OpenHarmony LLVM toolchain (expected `bin/clang` and `include/libcxx-ohos`). Point --llvm at the `llvm` directory of an OpenHarmony SDK or an unpacked prebuilt toolchain (https://github.com/openharmony-rs/ohos-llvm-toolchains).",
            ),
            Error::MissingLibclang { path } => cat3(
                "No libclang shared library found in ",
                path.as_str(),
                ". bindgen would silently fall back to whatever libclang the host provides instead of the toolchain's.",
            ),
            Error::MissingRuntimeLibrary { path } => cat3(
                "The toolchain is missing the C++ runtime library ",
                path.as_str(),
                ", which an application linked with it has to bundle.",
            ),
            Error::WhitespaceInCompilerValue { part } => cat3(
                "`",
                part.as_str(),
                "` contains whitespace, which `CC` cannot carry because cc-rs splits the value on it. Use paths without spaces for the SDK and LLVM toolchain.",
            ),
            Error::Io { path, source } => cat3(path.as_str(), ": ", source.as_str()),
            Error::JoinPaths { source } => cat2("could not construct path list: ", source.as_str()),
            Error::CargoMetadata { message } => cat2(
                "could not determine the cargo target directory via `cargo metadata`: ",
                message.as_str(),
            ),
        }
    }
}

/// What is asked for.
#[derive(Debug)]
pub struct Config {
    pub target: Target,
    pub sdk: Option<String>,
    /// An OpenHarmony LLVM toolchain (`llvm` directory) to use instead of the SDK's.
    pub llvm: Option<String>,
    pub no_inline_flags: bool,
}

/// Whether the compiler values carry the flags. They do with an external toolchain, unless asked
/// otherwise: build systems that put compiler command lines together anew drop `CFLAGS`, and an
/// external clang without its flags may not even compile for the host.
pub open spec fn inlines(config: Config) -> bool {
    config.llvm is Some && !config.no_inline_flags
}

impl Config {
    pub fn new(target: Target) -> (res: Self)
        ensures
            res.target == target,
            res.sdk is None,
            res.llvm is None,
            !res.no_inline_flags,
    {
        Config { target, sdk: None, llvm: None, no_inline_flags: false }
    }

    pub fn inline_flags(&self) -> (res: bool)
        ensures
            res == inlines(*self),
    {
        self.llvm.is_some() && !self.no_inline_flags
    }
}

/// Everything that is known about how to build.
#[derive(Debug)]
pub struct BuildEnv {
    pub sdk: Sdk,
    pub target: Target,
    pub toolchain: Toolchain,
    pub flags: Flags,
    pub runtime_libraries: Vec<RuntimeLibrary>,
    pub env: StringMap,
}

/// The SDK's ninja, if CMake is to use it: where the SDK has it and the user chose no generator.
pub open spec fn ninja_of(platform: Platform, sdk: Sdk, found: Found, generator_set: bool) -> Option<
    Seq<char>,
> {
    let path = cmake_program(platform, sdk.native_root@, "ninja"@);
    if !generator_set && found.files@.contains(path) {
        Some(path)
    } else {
        None
    }
}

/// The value of `CC` or `CXX` for the program at `path`.
pub open spec fn compiler_value(inline: bool, path: Seq<char>, flags: Seq<Seq<char>>) -> Seq<char> {
    if inline {
        joined(inline_parts(posix_of(path), flags), " "@)
    } else {
        posix_of(path)
    }
}

/// The environment variables.
pub open spec fn env_of(
    platform: Platform,
    inline: bool,
    sdk: Sdk,
    target: Target,
    toolchain: Toolchain,
    cflags: Seq<Seq<char>>,
    cxxflags: Seq<Seq<char>>,
    bindgen: Seq<Seq<char>>,
    use_ninja: bool,
    toolchain_file: Option<Seq<char>>,
) -> Env {
    let compilers = with_compilers(
        Map::empty(),
        target,
        compiler_value(inline, toolchain.clang@, cflags),
        compiler_value(inline, toolchain.clangxx@, cxxflags),
    );
    let tools = with_tools(with_host_compilers(compilers, platform), target, toolchain);
    let flags = with_flags(tools, inline, joined(cflags, " "@), joined(cxxflags, " "@));
    let linker = with_linker(flags, target, toolchain, joined(bindgen, " "@));
    let cmake = with_cmake(linker, sdk, target, toolchain, use_ninja, toolchain_file);
    with_sdk(with_pkg_config(cmake, platform, sdk, target), sdk, target)
}

/// What to do next to make the environment variables.
pub enum MapStep {
    /// Write this file below the directory of generated files, and hand back its absolute path.
    WriteToolchainFile(CmakeToolchain),
    Done(Result<StringMap, Error>),
}

/// The variables once it is known where the generated toolchain file is, if there is one; or that the
/// SDK's path cannot stand in a list.
pub open spec fn mapped(
    platform: Platform,
    config: Config,
    sdk: Sdk,
    target: Target,
    toolchain: Toolchain,
    flags: Flags,
    use_ninja: bool,
    toolchain_file: Option<Seq<char>>,
    step: MapStep,
) -> bool {
    if listable(platform, pkg_config_paths(platform, sdk)) {
        step matches MapStep::Done(Ok(env)) && env@ == env_of(
            platform,
            inlines(config),
            sdk,
            target,
            toolchain,
            texts(flags.cflags@),
            texts(flags.cxxflags@),
            texts(flags.bindgen@),
            use_ninja,
            toolchain_file,
        )
    } else {
        step matches MapStep::Done(Err(error)) && is_join_error(platform, error)
    }
}

/// The step that leads to the variables. A part with whitespace is refused before anything is
/// written; a toolchain file is generated exactly if the SDK has one.
pub open spec fn map_step(
    platform: Platform,
    config: Config,
    sdk: Sdk,
    target: Target,
    toolchain: Toolchain,
    flags: Flags,
    ninja: Option<Seq<char>>,
    toolchain_file: Option<Result<String, Error>>,
    step: MapStep,
) -> bool {
    let cflags = texts(flags.cflags@);
    let cxxflags = texts(flags.cxxflags@);
    match first_spaced(inlines(config), toolchain, cflags, cxxflags) {
        Some(spaced) => {
            step matches MapStep::Done(Err(Error::WhitespaceInCompilerValue { part })) && part@
                == spaced
        },
        None => match (sdk.cmake_toolchain_file, toolchain_file) {
            (Some(sdk_file), None) => step matches MapStep::WriteToolchainFile(generated)
                && is_toolchain_file(
                sdk_file@,
                toolchain.clang@,
                toolchain.clangxx@,
                joined(cflags, " "@),
                joined(cxxflags, " "@),
                target,
                ninja,
                generated,
            ),
            (Some(_), Some(Err(error))) => step == MapStep::Done(Err(error)),
            (Some(_), Some(Ok(file))) => mapped(
                platform,
                config,
                sdk,
                target,
                toolchain,
                flags,
                ninja is Some,
                Some(file@),
                step,
            ),
            (None, _) => mapped(
                platform,
                config,
                sdk,
                target,
                toolchain,
                flags,
                ninja is Some,
                None,
                step,
            ),
        },
    }
}

/// What to do next to derive an environment.
pub enum DeriveStep {
    /// Write this file below the directory of generated files, and hand back its absolute path.
    WriteToolchainFile(CmakeToolchain),
    Done(Result<BuildEnv, Error>),
}

/// The environment for `config` with `sdk`, or that it cannot be had for the SDK's path.
pub open spec fn derived(
    platform: Platform,
    config: Config,
    sdk: Sdk,
    found: Found,
    generator_set: bool,
    toolchain_file: Option<Seq<char>>,
    step: DeriveStep,
) -> bool {
    if listable(platform, pkg_config_paths(platform, sdk)) {
        &&& step matches DeriveStep::Done(Ok(build_env))
        &&& build_env.sdk == sdk
        &&& build_env.target == config.target
        &&& resolve_is(
            platform,
            sdk,
            config.llvm,
            found,
            Ok::<Toolchain, Error>(build_env.toolchain),
        )
        &&& flags_are(platform, sdk, config.target, build_env.flags)
        &&& runtime_libraries_are(
            platform,
            root_of(sdk, config.llvm, found),
            config.llvm is Some,
            config.target,
            build_env.runtime_libraries@,
        )
        &&& build_env.env@ == env_of(
            platform,
            inlines(config),
            sdk,
            config.target,
            build_env.toolchain,
            cflags_of(sdk, config.target),
            cflags_of(sdk, config.target),
            bindgen_of(platform, sdk, config.target),
            ninja_of(platform, sdk, found, generator_set) is Some,
            toolchain_file,
        )
    } else {
        step matches DeriveStep::Done(Err(error)) && is_join_error(platform, error)
    }
}

/// What stands in the way of the compiler values: the first part with whitespace that one of them
/// would carry.
pub open spec fn unspeakable_part(
    platform: Platform,
    config: Config,
    sdk: Sdk,
    found: Found,
) -> Option<Seq<char>> {
    let root = root_of(sdk, config.llvm, found);
    let flags = cflags_of(sdk, config.target);
    spaced_of(
        inlines(config),
        tool_path(platform, root, "clang"@),
        tool_path(platform, root, "clang++"@),
        flags,
        flags,
    )
}

/// The step that leads to the environment, or the first thing that stands in the way.
pub open spec fn derive_step(
    platform: Platform,
    config: Config,
    sdk: Sdk,
    found: Found,
    generator_set: bool,
    toolchain_file: Option<Result<String, Error>>,
    step: DeriveStep,
) -> bool {
    let root = root_of(sdk, config.llvm, found);
    let libcxx = libcxx_of(platform, root, config.target);
    if !resolvable(platform, sdk, config.llvm, found) {
        step matches DeriveStep::Done(Err(error)) && resolve_is(
            platform,
            sdk,
            config.llvm,
            found,
            Err::<Toolchain, Error>(error),
        )
    } else if config.llvm is Some && !found.files@.contains(libcxx) {
        step matches DeriveStep::Done(Err(Error::MissingRuntimeLibrary { path })) && path@ == libcxx
    } else if unspeakable_part(platform, config, sdk, found) is Some {
        step matches DeriveStep::Done(Err(Error::WhitespaceInCompilerValue { part })) && Some(part@)
            == unspeakable_part(platform, config, sdk, found)
    } else {
        match (sdk.cmake_toolchain_file, toolchain_file) {
            (Some(sdk_file), None) => {
                step matches DeriveStep::WriteToolchainFile(generated) && is_toolchain_file(
                    sdk_file@,
                    tool_path(platform, root, "clang"@),
                    tool_path(platform, root, "clang++"@),
                    joined(cflags_of(sdk, config.target), " "@),
                    joined(cflags_of(sdk, config.target), " "@),
                    config.target,
                    ninja_of(platform, sdk, found, generator_set),
                    generated,
                )
            },
            (Some(_), Some(Err(error))) => step == DeriveStep::Done(Err(error)),
            (Some(_), Some(Ok(file))) => derived(
                platform,
                config,
                sdk,
                found,
                generator_set,
                Some(file@),
                step,
            ),
            (None, _) => derived(platform, config, sdk, found, generator_set, None, step),
        }
    }
}

fn find_ninja(platform: Platform, sdk: &Sdk, found: &Found, generator_set: bool) -> (res: Option<String>)
    ensures
        opt_text(res) == ninja_of(platform, *sdk, *found, generator_set),
{
    let path = sdk_paths(platform, sdk.native_root.as_str()).ninja;
    if !generator_set && found.files.contains(path.as_str()) {
        Some(path)
    } else {
        None
    }
}

fn compiler_values(config: &Config, toolchain: &Toolchain, flags: &Flags) -> (res: Result<
    (String, String),
    Error,
>)
    ensures
        ({
            let inline = inlines(*config);
            let cflags = texts(flags.cflags@);
            let cxxflags = texts(flags.cxxflags@);
            match first_spaced(inline, *toolchain, cflags, cxxflags) {
                Some(spaced) => res matches Err(Error::WhitespaceInCompilerValue { part }) && part@
                    == spaced,
                None => {
                    &&& res matches Ok((cc, cxx))
                    &&& cc@ == compiler_value(inline, toolchain.clang@, cflags)
                    &&& cxx@ == compiler_value(inline, toolchain.clangxx@, cxxflags)
                },
            }
        }),
{
    let clang = posix(toolchain.clang.as_str());
    let clangxx = posix(toolchain.clangxx.as_str());
    if !config.inline_flags() {
        return Ok((clang, clangxx));
    }
    proof {
        lemma_spaced_part_of_both(
            carried(clang@, texts(flags.cflags@)),
            carried(clangxx@, texts(flags.cxxflags@)),
        );
    }
    let cc = match inline_value(clang.as_str(), &flags.cflags) {
        Ok(value) => value,
        Err(error) => return Err(error),
    };
    let cxx = match inline_value(clangxx.as_str(), &flags.cxxflags) {
        Ok(value) => value,
        Err(error) => return Err(error),
    };
    Ok((cc, cxx))
}

/// The environment variables for building with `sdk`, `toolchain` and `flags`: the step that leads to
/// them. `ninja` is the SDK's, if CMake is to use it, and `toolchain_file` the path of the generated
/// file, once it was written, or why it was not; an SDK without such a file has none generated.
pub fn build_env_map(
    platform: Platform,
    config: &Config,
    sdk: &Sdk,
    target: &Target,
    toolchain: &Toolchain,
    flags: &Flags,
    ninja: &Option<String>,
    toolchain_file: Option<Result<String, Error>>,
) -> (res: MapStep)
    ensures
        map_step(
            platform,
            *config,
            *sdk,
            *target,
            *toolchain,
            *flags,
            opt_text(*ninja),
            toolchain_file,
            res,
        ),
{
    let compilers = match compiler_values(config, toolchain, flags) {
        Ok(values) => values,
        Err(error) => return MapStep::Done(Err(error)),
    };
    let cflags = join(&flags.cflags, " ");
    let cxxflags = join(&flags.cxxflags, " ");
    let bindgen = join(&flags.bindgen, " ");
    let written = match &sdk.cmake_toolchain_file {
        Some(sdk_file) => match toolchain_file {
            None => {
                let generated = generate_cmake_toolchain(
                    sdk_file.as_str(),
                    toolchain.clang.as_str(),
                    toolchain.clangxx.as_str(),
                    cflags.as_str(),
                    cxxflags.as_str(),
                    target,
                    ninja,
                );
                return MapStep::WriteToolchainFile(generated);
            },
            Some(Ok(file)) => Some(file),
            Some(Err(error)) => return MapStep::Done(Err(error)),
        },
        None => None,
    };
    let mut env = StringMap::new();
    set_compilers(&mut env, target, compilers.0.as_str(), compilers.1.as_str());
    set_host_compilers(&mut env, platform);
    set_tools(&mut env, target, toolchain);
    set_flags(&mut env, config.inline_flags(), cflags.as_str(), cxxflags.as_str());
    set_linker(&mut env, target, toolchain, bindgen.as_str());
    set_cmake(&mut env, sdk, target, toolchain, ninja.is_some(), &written);
    match set_pkg_config(&mut env, platform, sdk, target) {
        Ok(()) => {},
        Err(error) => return MapStep::Done(Err(error)),
    }
    set_sdk(&mut env, sdk, target);
    MapStep::Done(Ok(env))
}

/// The environment for building with `sdk`: the step that leads to it. `found` is what is on disk
/// where the toolchain is looked for, `generator_set` whether the user chose a CMake generator, and
/// `toolchain_file` the path of the generated file, once it was written, or why it was not.
pub fn derive(
    platform: Platform,
    config: &Config,
    sdk: &Sdk,
    found: &Found,
    generator_set: bool,
    toolchain_file: Option<Result<String, Error>>,
) -> (res: DeriveStep)
    ensures
        derive_step(platform, *config, *sdk, *found, generator_set, toolchain_file, res),
{
    let target = &config.target;
    let resolved = Toolchain::resolve(platform, sdk, &config.llvm, found);
    proof {
        law_resolving_succeeds_if_it_can(platform, *sdk, config.llvm, *found, resolved);
    }
    let toolchain = match resolved {
        Ok(toolchain) => toolchain,
        Err(error) => return DeriveStep::Done(Err(error)),
    };
    let flags = Flags::new(platform, sdk, target);
    let runtime_libraries = match toolchain.runtime_libraries(platform, target, found) {
        Ok(libraries) => libraries,
        Err(error) => return DeriveStep::Done(Err(error)),
    };
    let ninja = find_ninja(platform, sdk, found, generator_set);
    let env = match build_env_map(
        platform,
        config,
        sdk,
        target,
        &toolchain,
        &flags,
        &ninja,
        toolchain_file,
    ) {
        MapStep::WriteToolchainFile(generated) => return DeriveStep::WriteToolchainFile(generated),
        MapStep::Done(Err(error)) => return DeriveStep::Done(Err(error)),
        MapStep::Done(Ok(env)) => env,
    };
    DeriveStep::Done(
        Ok(
            BuildEnv {
                sdk: sdk.clone(),
                target: target.clone(),
                toolchain,
                flags,
                runtime_libraries,
                env,
            },
        ),
    )
}

/// What to do next to find the directory of generated files.
pub enum DirectoryStep {
    /// Run this command, and hand back its outcome.
    RunMetadata(Vec<String>),
    /// Parse what the command printed, and hand back its target directory.
    ParseMetadata,
    Done(Result<String, Error>),
}

/// The command that tells the target directory of the project.
pub open spec fn metadata_command(cargo: Option<Seq<char>>, manifest_path: Option<Seq<char>>) -> Seq<
    Seq<char>,
> {
    let program = match cargo {
        Some(program) => program,
        None => "cargo"@,
    };
    let command = seq![program, "metadata"@, "--format-version"@, "1"@, "--no-deps"@];
    match manifest_path {
        Some(path) => command.push("--manifest-path"@).push(path),
        None => command,
    }
}

pub open spec fn no_metadata(step: DirectoryStep, text: Seq<char>) -> bool {
    step matches DirectoryStep::Done(Err(Error::CargoMetadata { message })) && message@ == text
}

/// The step that leads to the directory of generated files. A directory relative to the working
/// directory would be wrong in a workspace member, so cargo is asked where it is.
pub open spec fn directory_step(
    platform: Platform,
    target_dir: Option<Seq<char>>,
    cargo: Option<Seq<char>>,
    manifest_path: Option<Seq<char>>,
    ran: Option<Outcome>,
    parsed: Option<Result<String, String>>,
    step: DirectoryStep,
) -> bool {
    match target_dir {
        Some(dir) => step matches DirectoryStep::Done(Ok(path)) && path@ == joined_path(
            platform,
            dir,
            "ohos-toolchain"@,
        ),
        None => match ran {
            None => step matches DirectoryStep::RunMetadata(command) && texts(command@)
                == metadata_command(cargo, manifest_path),
            Some(Err(error)) => no_metadata(step, error.message@),
            Some(Ok(output)) => if !succeeded(output) {
                no_metadata(step, trimmed(utf8_lossy(output.stderr@)))
            } else {
                match parsed {
                    None => step is ParseMetadata,
                    Some(Err(error)) => no_metadata(
                        step,
                        "unexpected `cargo metadata` output: "@ + error@,
                    ),
                    Some(Ok(dir)) => step matches DirectoryStep::Done(Ok(path)) && path@
                        == joined_path(platform, dir@, "ohos-toolchain"@),
                }
            },
        },
    }
}

/// The directory of generated files: the step that leads to it. `target_dir` is the user's choice of
/// a target directory, `cargo` the program to ask, and `manifest_path` the project asked about.
pub fn generated_dir(
    platform: Platform,
    target_dir: &Option<String>,
    cargo: &Option<String>,
    manifest_path: &Option<String>,
    ran: &Option<Outcome>,
    parsed: &Option<Result<String, String>>,
) -> (res: DirectoryStep)
    ensures
        directory_step(
            platform,
            opt_text(*target_dir),
            opt_text(*cargo),
            opt_text(*manifest_path),
            *ran,
            *parsed,
            res,
        ),
{
    if let Some(dir) = target_dir {
        return DirectoryStep::Done(Ok(join_path(platform, dir.as_str(), "ohos-toolchain")));
    }
    let output = match ran {
        None => {
            let program = match cargo {
                Some(program) => program.as_str(),
                None => "cargo",
            };
            let mut words: Vec<&str> = vec![
                program,
                "metadata",
                "--format-version",
                "1",
                "--no-deps",
            ];
            if let Some(path) = manifest_path {
                words.push("--manifest-path");
                words.push(path.as_str());
            }
            let command = argv(words);
            proof {
                assert(texts(command@) =~= metadata_command(
                    opt_text(*cargo),
                    opt_text(*manifest_path),
                ));
            }
            return DirectoryStep::RunMetadata(command);
        },
        Some(Err(error)) => {
            return DirectoryStep::Done(Err(Error::CargoMetadata { message: error.message.clone() }));
        },
        Some(Ok(output)) => output,
    };
    if !output.success() {
        let message = trim(from_utf8_lossy(output.stderr.as_slice()).as_str());
        return DirectoryStep::Done(Err(Error::CargoMetadata { message }));
    }
    match parsed {
        None => DirectoryStep::ParseMetadata,
        Some(Err(error)) => {
            let message = cat2("unexpected `cargo metadata` output: ", error.as_str());
            DirectoryStep::Done(Err(Error::CargoMetadata { message }))
        },
        Some(Ok(dir)) => DirectoryStep::Done(
            Ok(join_path(platform, dir.as_str(), "ohos-toolchain")),
        ),
    }
}

/// Nothing that is set after the compilers is in their way.
proof fn lemma_compilers_stay(
    platform: Platform,
    inline: bool,
    sdk: Sdk,
    target: Target,
    toolchain: Toolchain,
    cflags: Seq<Seq<char>>,
    cxxflags: Seq<Seq<char>>,
    bindgen: Seq<Seq<char>>,
    use_ninja: bool,
    toolchain_file: Option<Seq<char>>,
    name: Seq<char>,
)
    requires
        tag(name) == 1 || tag(name) == 2,
    ensures
        ({
            let env = env_of(
                platform,
                inline,
                sdk,
                target,
                toolchain,
                cflags,
                cxxflags,
                bindgen,
                use_ninja,
                toolchain_file,
            );
            let compilers = with_compilers(
                Map::empty(),
                target,
                compiler_value(inline, toolchain.clang@, cflags),
                compiler_value(inline, toolchain.clangxx@, cxxflags),
            );
            &&& env.contains_key(name) == compilers.contains_key(name)
            &&& env.contains_key(name) ==> env[name] == compilers[name]
        }),
{
    lemma_tags(target);
}

/// The flags reach a build exactly once: either the compiler values carry them or the flag variables
/// do, never both and never neither; the C compiler gets those for C and the C++ compiler those for
/// C++. Both spellings of a target's compiler have the same value.
pub proof fn law_flags_travel_once(
    platform: Platform,
    inline: bool,
    sdk: Sdk,
    target: Target,
    toolchain: Toolchain,
    cflags: Seq<Seq<char>>,
    cxxflags: Seq<Seq<char>>,
    bindgen: Seq<Seq<char>>,
    use_ninja: bool,
    toolchain_file: Option<Seq<char>>,
)
    ensures
        ({
            let env = env_of(
                platform,
                inline,
                sdk,
                target,
                toolchain,
                cflags,
                cxxflags,
                bindgen,
                use_ninja,
                toolchain_file,
            );
            let rust = target.rust_triple@;
            let rust_u = target.rust_underscored();
            &&& env.contains_key("TARGET_CFLAGS"@) == !inline
            &&& env.contains_key("TARGET_CXXFLAGS"@) == !inline
            &&& env.contains_key("TARGET_CPPFLAGS"@) == !inline
            &&& !inline ==> env["TARGET_CFLAGS"@] == joined(cflags, " "@)
            &&& !inline ==> env["TARGET_CXXFLAGS"@] == joined(cxxflags, " "@)
            &&& !inline ==> env["TARGET_CPPFLAGS"@] == joined(cflags, " "@)
            &&& env.contains_key("CC_"@ + rust_u) && env.contains_key("CC_"@ + rust)
            &&& env.contains_key("CXX_"@ + rust_u) && env.contains_key("CXX_"@ + rust)
            &&& env["CC_"@ + rust_u] == if inline {
                joined(inline_parts(posix_of(toolchain.clang@), cflags), " "@)
            } else {
                posix_of(toolchain.clang@)
            }
            &&& env["CXX_"@ + rust_u] == if inline {
                joined(inline_parts(posix_of(toolchain.clangxx@), cxxflags), " "@)
            } else {
                posix_of(toolchain.clangxx@)
            }
            &&& env["CC_"@ + rust] == env["CC_"@ + rust_u]
            &&& env["CXX_"@ + rust] == env["CXX_"@ + rust_u]
        }),
{
    lemma_tags(target);
    let env = env_of(
        platform,
        inline,
        sdk,
        target,
        toolchain,
        cflags,
        cxxflags,
        bindgen,
        use_ninja,
        toolchain_file,
    );
    let rust = target.rust_triple@;
    let rust_u = target.rust_underscored();
    let cc = compiler_value(inline, toolchain.clang@, cflags);
    let cxx = compiler_value(inline, toolchain.clangxx@, cxxflags);
    assert forall|name: Seq<char>|
        name == "CC_"@ + rust || name == "CC_"@ + rust_u || name == "CXX_"@ + rust || name == "CXX_"@
            + rust_u implies #[trigger] env.contains_key(name) && env[name] == if tag(name) == 1 {
        cc
    } else {
        cxx
    } by {
        lemma_compilers_stay(
            platform,
            inline,
            sdk,
            target,
            toolchain,
            cflags,
            cxxflags,
            bindgen,
            use_ninja,
            toolchain_file,
            name,
        );
        let compilers = with_compilers(Map::empty(), target, cc, cxx);
        assert(compilers.contains_key(name));
    }
}

/// What the environment says of the SDK follows the SDK: a level, a CMake and a toolchain file are
/// named exactly if there are such. The linker and the compilers of CMake are the plain programs,
/// whether or not the compiler values carry flags.
pub proof fn law_environment_follows_the_sdk(
    platform: Platform,
    inline: bool,
    sdk: Sdk,
    target: Target,
    toolchain: Toolchain,
    cflags: Seq<Seq<char>>,
    cxxflags: Seq<Seq<char>>,
    bindgen: Seq<Seq<char>>,
    use_ninja: bool,
    toolchain_file: Option<Seq<char>>,
)
    ensures
        ({
            let env = env_of(
                platform,
                inline,
                sdk,
                target,
                toolchain,
                cflags,
                cxxflags,
                bindgen,
                use_ninja,
                toolchain_file,
            );
            let rust_u = target.rust_underscored();
            let level = "CARGO_OHOS_API_LEVEL"@;
            let generated = "CMAKE_TOOLCHAIN_FILE_"@ + rust_u;
            let generator = "CMAKE_GENERATOR_"@ + rust_u;
            let clang = posix_of(toolchain.clang@);
            let clangxx = posix_of(toolchain.clangxx@);
            &&& env.contains_key(level) == sdk.api_version is Some
            &&& sdk.api_version matches Some(api) ==> env[level] == decimal(api as nat)
            &&& env.contains_key("CMAKE"@) == sdk.cmake is Some
            &&& sdk.cmake matches Some(cmake) ==> env["CMAKE"@] == posix_of(cmake@)
            &&& env.contains_key(generated) == toolchain_file is Some
            &&& toolchain_file matches Some(file) ==> env[generated] == posix_of(file)
            &&& env.contains_key(generator) == use_ninja
            &&& maps_to(env, "CMAKE_C_COMPILER_"@ + rust_u, clang)
            &&& maps_to(env, "CMAKE_CXX_COMPILER_"@ + rust_u, clangxx)
            &&& maps_to(env, "CARGO_TARGET_"@ + target.rust_upper() + "_LINKER"@, clang)
            &&& maps_to(env, "CLANG_PATH"@, clangxx)
            &&& maps_to(env, "OHOS_SDK_NATIVE"@, posix_of(sdk.native_root@))
        }),
{
    lemma_tags(target);
}

/// Whether `env` sets `name` to `value`.
pub open spec fn maps_to(env: Env, name: Seq<char>, value: Seq<char>) -> bool {
    env.contains_key(name) && env[name] == value
}

/// Variables are only ever made with a toolchain file if the SDK has one, and without if it has none.
pub proof fn law_toolchain_file_follows_the_sdk(
    platform: Platform,
    config: Config,
    sdk: Sdk,
    target: Target,
    toolchain: Toolchain,
    flags: Flags,
    ninja: Option<Seq<char>>,
    toolchain_file: Option<Result<String, Error>>,
    step: MapStep,
)
    requires
        map_step(
            platform,
            config,
            sdk,
            target,
            toolchain,
            flags,
            ninja,
            toolchain_file,
            step,
        ),
    ensures
        step matches MapStep::Done(Ok(env)) ==> env@.contains_key(
            "CMAKE_TOOLCHAIN_FILE_"@ + target.rust_underscored(),
        ) == sdk.cmake_toolchain_file is Some,
        step is WriteToolchainFile ==> sdk.cmake_toolchain_file is Some && first_spaced(
            inlines(config),
            toolchain,
            texts(flags.cflags@),
            texts(flags.cxxflags@),
        ) is None,
{
    let file = match (sdk.cmake_toolchain_file, toolchain_file) {
        (Some(_), Some(Ok(file))) => Some(file@),
        _ => None,
    };
    law_environment_follows_the_sdk(
        platform,
        inlines(config),
        sdk,
        target,
        toolchain,
        texts(flags.cflags@),
        texts(flags.cxxflags@),
        texts(flags.bindgen@),
        ninja is Some,
        file,
    );
}

} // verus!
