//! The order in which a cargo subcommand is carried out.

use crate::ambient::{
    ambient_rustflags_of, bindgen_variable, composed, passthrough, passthrough_env, warn_all,
};
use crate::build_env::environment::{is_join_error, listable, path_list_of};
use crate::build_env::{error_message, BuildEnv, Config};
use crate::command::{
    cargo_command, cargo_command_of, check_min_api, exit_code, exit_code_of, help_command,
    min_api_error, Invocation, Options,
};
use crate::ordered::StringMap;
use crate::path::Platform;
use crate::process::argv;
use crate::runner::{
    choose_runner, library_paths, runner_step, runner_variable, runner_variable_of,
    runtime_library_list, RUNTIME_LIBRARIES_VARIABLE, RunnerSeen, RunnerStep,
};
use crate::sdk::Sdk;
use crate::shell::resolved;
use crate::target::{arch_named, Target, UnknownTarget};
use crate::text::{cat2, copy_of, joined, texts};
use vstd::prelude::*;

verus! {

/// What was seen so far while getting a build environment.
pub struct BuildSeen {
    /// The SDK that was found.
    pub sdk: Option<Result<Sdk, String>>,
    /// Where the downloaded toolchain is.
    pub prebuilt: Option<Result<String, String>>,
    pub derived: Option<Result<BuildEnv, String>>,
}

/// What to do next to get a build environment.
pub enum BuildStep {
    /// Look for an SDK: `sdk`.
    Discover(Option<String>),
    /// Install this version of a prebuilt toolchain: `prebuilt`.
    ResolvePrebuilt(String),
    /// Derive the environment: `derived`.
    Derive(Config),
    /// The derived environment is what was asked for.
    Accept,
    Fail(String),
}

pub open spec fn build_fails(step: BuildStep, message: Seq<char>) -> bool {
    step matches BuildStep::Fail(error) && error@ == message
}

/// What follows once it is known which toolchain to use.
pub open spec fn derive_with(
    options: Options,
    arch: crate::target::Arch,
    llvm: Option<String>,
    derived: Option<Result<BuildEnv, String>>,
    step: BuildStep,
) -> bool {
    match derived {
        None => {
            &&& step matches BuildStep::Derive(config)
            &&& config.target.is_for(arch)
            &&& config.sdk == options.sdk
            &&& config.llvm == llvm
            &&& config.no_inline_flags == options.no_inline_flags
        },
        Some(Err(error)) => build_fails(step, error@),
        Some(Ok(build_env)) => match min_api_error(build_env.sdk, options.min_api) {
            Some(message) => build_fails(step, message),
            None => step is Accept,
        },
    }
}

/// The step that follows `seen`. The SDK is checked before a toolchain is downloaded, which may take
/// long.
pub open spec fn build_step(options: Options, seen: BuildSeen, step: BuildStep) -> bool {
    match arch_named(options.target@) {
        None => step matches BuildStep::Fail(error) && error@ == UnknownTarget(options.target).text(),
        Some(arch) => match options.download_prebuilt {
            None => derive_with(options, arch, options.llvm, seen.derived, step),
            Some(version) => match seen.sdk {
                None => step matches BuildStep::Discover(path) && path == options.sdk,
                Some(Err(error)) => build_fails(step, error@),
                Some(Ok(sdk)) => match min_api_error(sdk, options.min_api) {
                    Some(message) => build_fails(step, message),
                    None => match seen.prebuilt {
                        None => step matches BuildStep::ResolvePrebuilt(asked) && asked@ == version@,
                        Some(Err(error)) => build_fails(step, error@),
                        Some(Ok(path)) => derive_with(options, arch, Some(path), seen.derived, step),
                    },
                },
            },
        },
    }
}

fn derive_next(
    options: &Options,
    target: Target,
    llvm: Option<String>,
    derived: &Option<Result<BuildEnv, String>>,
) -> (res: BuildStep)
    ensures
        forall|arch: crate::target::Arch| #[trigger]
            target.is_for(arch) ==> derive_with(*options, arch, llvm, *derived, res),
{
    match derived {
        None => {
            let mut config = Config::new(target);
            config.sdk = copy_of(&options.sdk);
            config.llvm = llvm;
            config.no_inline_flags = options.no_inline_flags;
            BuildStep::Derive(config)
        },
        Some(Err(error)) => BuildStep::Fail(error.clone()),
        Some(Ok(build_env)) => match check_min_api(&build_env.sdk, options.min_api) {
            Ok(()) => BuildStep::Accept,
            Err(message) => BuildStep::Fail(message),
        },
    }
}

/// Get the build environment the options ask for: the step that follows what was seen so far.
pub fn derive_build_env(options: &Options, seen: &BuildSeen) -> (res: BuildStep)
    ensures
        build_step(*options, *seen, res),
{
    let target = match Target::parse(options.target.as_str()) {
        Ok(target) => target,
        Err(error) => return BuildStep::Fail(error.message()),
    };
    let version = match &options.download_prebuilt {
        None => return derive_next(options, target, copy_of(&options.llvm), &seen.derived),
        Some(version) => version,
    };
    match &seen.sdk {
        None => return BuildStep::Discover(copy_of(&options.sdk)),
        Some(Err(error)) => return BuildStep::Fail(error.clone()),
        Some(Ok(sdk)) => match check_min_api(sdk, options.min_api) {
            Ok(()) => {},
            Err(message) => return BuildStep::Fail(message),
        },
    }
    match &seen.prebuilt {
        None => BuildStep::ResolvePrebuilt(version.clone()),
        Some(Err(error)) => BuildStep::Fail(error.clone()),
        Some(Ok(path)) => derive_next(options, target, Some(path.clone()), &seen.derived),
    }
}

/// What was seen so far while carrying out a cargo subcommand.
pub struct RunSeen {
    /// The build environment.
    pub built: Option<Result<BuildEnv, String>>,
    pub runner: RunnerSeen,
    /// The exit code of cargo, none if a signal ended it; or why it could not be run.
    pub ran: Option<Result<Option<i32>, String>>,
}

/// What to do next to carry out a cargo subcommand.
pub enum RunStep {
    /// Get the build environment: `built`.
    Build,
    /// Look for this program on the search path: `runner`.
    FindRunner(&'static str),
    /// Run this command, and record its outcome as the version of the runner.
    AskVersion(Vec<String>),
    /// Run cargo's own help: `ran`.
    ShowHelp(Vec<String>),
    /// Print the warnings and run this command, with the variables of `env` set and then those of
    /// `unset` taken out of the environment: `ran`.
    Spawn {
        command: Vec<String>,
        env: StringMap,
        unset: Vec<String>,
        warnings: Vec<String>,
    },
    /// Print the options of the tool itself, and end with the exit code.
    PrintOptions { code: u8 },
    Exit { code: u8 },
    Fail(String),
}

/// The variables that would override the encoded flags.
pub open spec fn overriding() -> Seq<Seq<char>> {
    seq!["RUSTFLAGS"@]
}

pub open spec fn run_fails(step: RunStep, message: Seq<char>) -> bool {
    step matches RunStep::Fail(error) && error@ == message
}

/// The environment of the build with what running programs on the device needs: the runner, where the
/// tool configures it, and the libraries to send along.
pub open spec fn run_env(
    platform: Platform,
    build_env: BuildEnv,
    runner: Option<Seq<char>>,
) -> Map<Seq<char>, Seq<char>> {
    let with_runner = match runner {
        Some(path) => build_env.env@.insert(runner_variable_of(build_env.target), path),
        None => build_env.env@,
    };
    let libraries = library_paths(build_env.runtime_libraries@);
    if libraries.len() > 0 {
        with_runner.insert(
            "OHOS_TEST_RUNNER_RUNTIME_LIBRARIES"@,
            path_list_of(platform, libraries),
        )
    } else {
        with_runner
    }
}

/// Cargo is run in `env`.
pub open spec fn spawn_step(
    invocation: Invocation,
    build_env: BuildEnv,
    env: Map<Seq<char>, Seq<char>>,
    ambient: Map<Seq<char>, Seq<char>>,
    ran: Option<Result<Option<i32>, String>>,
    step: RunStep,
) -> bool {
    let rustflags = texts(build_env.flags.rustflags@);
    let bindgen = bindgen_variable(build_env);
    match ran {
        None => {
            &&& step matches RunStep::Spawn { command, env: given, unset, warnings }
            &&& texts(command@) == cargo_command_of(
                texts(invocation.rest@),
                build_env.target.rust_triple@,
            )
            &&& given@ == passthrough(env, rustflags, bindgen, ambient)
            &&& texts(unset@) == overriding()
            &&& texts(warnings@) == warn_all(resolved(env, rustflags), ambient, bindgen)
        },
        Some(Err(error)) => run_fails(step, "could not run `cargo`: "@ + error@),
        Some(Ok(code)) => step matches RunStep::Exit { code: last } && last == exit_code_of(code),
    }
}

/// What follows once the runner was chosen.
pub open spec fn chosen_step(
    platform: Platform,
    invocation: Invocation,
    build_env: BuildEnv,
    chosen: RunnerStep,
    ambient: Map<Seq<char>, Seq<char>>,
    ran: Option<Result<Option<i32>, String>>,
    step: RunStep,
) -> bool {
    let libraries = library_paths(build_env.runtime_libraries@);
    match chosen {
        RunnerStep::Find(name) => step == RunStep::FindRunner(name),
        RunnerStep::AskVersion(command) => step matches RunStep::AskVersion(asked) && texts(asked@)
            == texts(command@),
        RunnerStep::Fail(message) => run_fails(step, message@),
        RunnerStep::NotNeeded => spawn_step(
            invocation,
            build_env,
            build_env.env@,
            ambient,
            ran,
            step,
        ),
        _ => if libraries.len() > 0 && !listable(platform, libraries) {
            step matches RunStep::Fail(message) && exists|error: crate::build_env::Error| #[trigger]
                is_join_error(platform, error) && message@ == error_message(error)
        } else {
            let runner = match chosen {
                RunnerStep::Configure(path) => Some(path@),
                _ => None,
            };
            spawn_step(
                invocation,
                build_env,
                run_env(platform, build_env, runner),
                ambient,
                ran,
                step,
            )
        },
    }
}

/// The runner the user has configured for the target.
pub open spec fn configured_runner(build_env: BuildEnv, ambient: Map<Seq<char>, Seq<char>>) -> Option<
    Seq<char>,
> {
    let name = runner_variable_of(build_env.target);
    if ambient.contains_key(name) {
        Some(ambient[name])
    } else {
        None
    }
}

/// The step that follows `seen`.
pub open spec fn run_step(
    platform: Platform,
    invocation: Invocation,
    ambient: Map<Seq<char>, Seq<char>>,
    seen: RunSeen,
    step: RunStep,
) -> bool {
    if invocation.help {
        match seen.ran {
            None => step matches RunStep::ShowHelp(command) && texts(command@) == seq!["cargo"@]
                + texts(invocation.rest@),
            Some(Err(error)) => run_fails(step, "could not run `cargo`: "@ + error@),
            Some(Ok(code)) => step matches RunStep::PrintOptions { code: last } && last
                == exit_code_of(code),
        }
    } else {
        match seen.built {
            None => step is Build,
            Some(Err(error)) => run_fails(step, error@),
            Some(Ok(build_env)) => exists|chosen: RunnerStep| #[trigger]
                runner_step(
                    platform,
                    invocation.name@,
                    texts(invocation.rest@),
                    configured_runner(build_env, ambient),
                    seen.runner,
                    chosen,
                ) && chosen_step(
                    platform,
                    invocation,
                    build_env,
                    chosen,
                    ambient,
                    seen.ran,
                    step,
                ),
        }
    }
}

fn spawn(
    invocation: &Invocation,
    build_env: &BuildEnv,
    env: StringMap,
    ambient: &StringMap,
    ran: &Option<Result<Option<i32>, String>>,
) -> (res: RunStep)
    requires
        invocation.rest.len() > 0,
    ensures
        spawn_step(*invocation, *build_env, env@, ambient@, *ran, res),
{
    match ran {
        None => {
            let command = cargo_command(&invocation.rest, build_env.target.rust_triple.as_str());
            let (env, warnings) = passthrough_env(build_env, env, ambient);
            let unset = argv(vec!["RUSTFLAGS"]);
            proof {
                assert(texts(unset@) =~= overriding());
            }
            RunStep::Spawn { command, env, unset, warnings }
        },
        Some(Err(error)) => RunStep::Fail(cat2("could not run `cargo`: ", error.as_str())),
        Some(Ok(code)) => RunStep::Exit { code: exit_code(*code) },
    }
}

fn run_chosen(
    platform: Platform,
    invocation: &Invocation,
    build_env: &BuildEnv,
    chosen: RunnerStep,
    ambient: &StringMap,
    ran: &Option<Result<Option<i32>, String>>,
) -> (res: RunStep)
    requires
        invocation.rest.len() > 0,
    ensures
        chosen_step(platform, *invocation, *build_env, chosen, ambient@, *ran, res),
{
    let runner = match chosen {
        RunnerStep::Find(name) => return RunStep::FindRunner(name),
        RunnerStep::AskVersion(command) => return RunStep::AskVersion(command),
        RunnerStep::Fail(message) => return RunStep::Fail(message),
        RunnerStep::NotNeeded => {
            return spawn(invocation, build_env, build_env.env.clone(), ambient, ran);
        },
        RunnerStep::UseConfigured => None,
        RunnerStep::Configure(path) => Some(path),
    };
    let list = match runtime_library_list(platform, &build_env.runtime_libraries) {
        Ok(list) => list,
        Err(error) => return RunStep::Fail(error.message()),
    };
    let mut env = build_env.env.clone();
    if let Some(path) = runner {
        env.insert(runner_variable(&build_env.target), path);
    }
    if let Some(list) = list {
        env.insert(RUNTIME_LIBRARIES_VARIABLE.to_owned(), list);
    }
    spawn(invocation, build_env, env, ambient, ran)
}

/// Carry out a cargo subcommand: the step that follows what was seen so far. `ambient` is the
/// environment of the process.
pub fn run(platform: Platform, invocation: &Invocation, ambient: &StringMap, seen: &RunSeen) -> (res:
    RunStep)
    requires
        invocation.rest.len() > 0,
    ensures
        run_step(platform, *invocation, ambient@, *seen, res),
{
    if invocation.help {
        return match &seen.ran {
            None => RunStep::ShowHelp(help_command(&invocation.rest)),
            Some(Err(error)) => RunStep::Fail(cat2("could not run `cargo`: ", error.as_str())),
            Some(Ok(code)) => RunStep::PrintOptions { code: exit_code(*code) },
        };
    }
    let build_env = match &seen.built {
        None => return RunStep::Build,
        Some(Err(error)) => return RunStep::Fail(error.clone()),
        Some(Ok(build_env)) => build_env,
    };
    let configured = ambient.get(runner_variable(&build_env.target).as_str());
    let chosen = choose_runner(
        platform,
        invocation.name.as_str(),
        &invocation.rest,
        &configured,
        &seen.runner,
    );
    run_chosen(platform, invocation, build_env, chosen, ambient, &seen.ran)
}

/// A toolchain is downloaded only for an SDK that has the API level asked for, and an environment is
/// accepted only if its SDK has it.
pub proof fn law_api_level_is_checked_first(options: Options, seen: BuildSeen, step: BuildStep)
    requires
        build_step(options, seen, step),
    ensures
        step is ResolvePrebuilt ==> (seen.sdk matches Some(Ok(sdk)) && min_api_error(
            sdk,
            options.min_api,
        ) is None),
        step is Accept ==> (seen.derived matches Some(Ok(build_env)) && min_api_error(
            build_env.sdk,
            options.min_api,
        ) is None),
{
}

/// Asking for help needs no SDK and no runner.
pub proof fn law_help_needs_nothing(
    platform: Platform,
    invocation: Invocation,
    ambient: Map<Seq<char>, Seq<char>>,
    seen: RunSeen,
    step: RunStep,
)
    requires
        run_step(platform, invocation, ambient, seen, step),
        invocation.help,
    ensures
        step is ShowHelp || step is PrintOptions || step is Fail,
        step is Fail ==> (seen.ran matches Some(Err(_))),
{
}

/// Cargo is not run before the build environment is there and, where programs are going to be run, a
/// runner that may be used.
pub proof fn law_cargo_runs_last(
    platform: Platform,
    invocation: Invocation,
    ambient: Map<Seq<char>, Seq<char>>,
    seen: RunSeen,
    step: RunStep,
)
    requires
        run_step(platform, invocation, ambient, seen, step),
        step is Spawn,
    ensures
        seen.built matches Some(Ok(build_env)) && exists|chosen: RunnerStep| #[trigger]
            runner_step(
                platform,
                invocation.name@,
                texts(invocation.rest@),
                configured_runner(build_env, ambient),
                seen.runner,
                chosen,
            ) && (chosen is NotNeeded || chosen is UseConfigured || chosen is Configure),
{
    let build_env = seen.built->Some_0->Ok_0;
    let chosen = choose|chosen: RunnerStep| #[trigger]
        runner_step(
            platform,
            invocation.name@,
            texts(invocation.rest@),
            configured_runner(build_env, ambient),
            seen.runner,
            chosen,
        ) && chosen_step(platform, invocation, build_env, chosen, ambient, seen.ran, step);
    assert(chosen is NotNeeded || chosen is UseConfigured || chosen is Configure);
}

/// Rustc gets the tool's flags and the user's, in the encoded list: that is set for cargo, and what
/// would override it is not.
pub proof fn law_rustc_gets_the_encoded_flags(
    platform: Platform,
    invocation: Invocation,
    ambient: Map<Seq<char>, Seq<char>>,
    seen: RunSeen,
    step: RunStep,
)
    requires
        run_step(platform, invocation, ambient, seen, step),
    ensures
        step matches RunStep::Spawn { command, env, unset, warnings } ==> {
            let name = "CARGO_ENCODED_RUSTFLAGS"@;
            &&& seen.built matches Some(Ok(build_env))
            &&& texts(unset@).contains("RUSTFLAGS"@)
            &&& env@.contains_key(name)
            &&& env@[name] == joined(
                composed(texts(build_env.flags.rustflags@), ambient_rustflags_of(ambient)),
                "\u{1f}"@,
            )
        },
{
    if let RunStep::Spawn { command, env, unset, warnings } = step {
        let build_env = seen.built->Some_0->Ok_0;
        let chosen = choose|chosen: RunnerStep| #[trigger]
            runner_step(
                platform,
                invocation.name@,
                texts(invocation.rest@),
                configured_runner(build_env, ambient),
                seen.runner,
                chosen,
            ) && chosen_step(platform, invocation, build_env, chosen, ambient, seen.ran, step);
        reveal_strlit("CARGO_ENCODED_RUSTFLAGS");
        reveal_strlit("TARGET_CFLAGS");
        reveal_strlit("TARGET_CXXFLAGS");
        reveal_strlit("TARGET_CPPFLAGS");
        reveal_strlit("BINDGEN_EXTRA_CLANG_ARGS_");
        assert("CARGO_ENCODED_RUSTFLAGS"@[0] == 'C' && "TARGET_CFLAGS"@[0] == 'T'
            && "TARGET_CXXFLAGS"@[0] == 'T' && "TARGET_CPPFLAGS"@[0] == 'T'
            && bindgen_variable(build_env)[0] == 'B');
        assert(overriding()[0] == "RUSTFLAGS"@);
    }
}

} // verus!
