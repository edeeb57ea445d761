//! Laws of a run: when the SDK, a toolchain and a runner are asked for, and what cargo is run with.

use crate::ambient::{passthrough, warn_all};
use crate::build_env::environment::path_list_of;
use crate::build_env::BuildEnv;
use crate::command::{runs_programs, Invocation, Options};
use crate::laws::text::{law_numbers_are_read_back, lemma_first_piece};
use crate::path::Platform;
use crate::process::{Output, RunError};
use crate::run::{
    build_step, chosen_step, configured_runner, run_env, run_step, BuildSeen, BuildStep,
    RunSeen, RunStep,
};
use crate::runner::{
    first_file, is_test_runner, law_versions_are_read_back, printed_version, program_candidates,
    recent_enough, runner_step, runner_variable_of, RunnerSeen, RunnerStep, Version,
};
use crate::shell::resolved;
use crate::sort::{first_index, lemma_first_index_bounds};
use crate::target::{arch_named, Target};
use crate::text::{
    decimal, has_class, in_class, is_digit, joined, lemma_decimal_is_read_back, line_seq,
    opt_text, pieces, texts, words, Class,
};
use crate::toolchain::RuntimeLibrary;
use vstd::prelude::*;

verus! {

/// What is asked for is what is built with: the target named, the SDK given, the toolchain given or
/// downloaded, and whether compilers are to carry their flags.
pub proof fn law_what_is_asked_for_is_built_with(options: Options, seen: BuildSeen, step: BuildStep)
    requires
        build_step(options, seen, step),
    ensures
        step matches BuildStep::Derive(config) ==> {
            &&& arch_named(options.target@) == Some(config.target.arch)
            &&& config.target.is_for(config.target.arch)
            &&& config.sdk == options.sdk
            &&& config.no_inline_flags == options.no_inline_flags
            &&& options.download_prebuilt is None ==> config.llvm == options.llvm
            &&& options.download_prebuilt is Some ==> (seen.prebuilt matches Some(Ok(path))
                && config.llvm == Some(path))
        },
        step matches BuildStep::Discover(path) ==> path == options.sdk,
        step matches BuildStep::ResolvePrebuilt(version) ==> opt_text(options.download_prebuilt) == Some(
            version@,
        ),
        step is Accept ==> (seen.derived matches Some(Ok(_))),
        step is ResolvePrebuilt || step is Discover ==> options.download_prebuilt is Some,
        arch_named(options.target@) is None ==> step is Fail,
{
}

/// Nothing stands in the way of what can be built: with a known target, and where every answer was good
/// and an SDK of the level asked for was found, the environment is accepted.
pub proof fn law_good_answers_are_accepted(options: Options, seen: BuildSeen, step: BuildStep)
    requires
        build_step(options, seen, step),
        arch_named(options.target@) is Some,
        seen.sdk matches Some(Ok(sdk)) && (options.min_api matches Some(least) ==> (
        sdk.api_version matches Some(level) && level >= least)),
        seen.prebuilt matches Some(Ok(_)),
        seen.derived matches Some(Ok(built)) && (options.min_api matches Some(least) ==> (
        built.sdk.api_version matches Some(level) && level >= least)),
    ensures
        step is Accept,
{
}

proof fn lemma_spawn(
    platform: Platform,
    invocation: Invocation,
    ambient: Map<Seq<char>, Seq<char>>,
    seen: RunSeen,
    step: RunStep,
) -> (chosen: RunnerStep)
    requires
        run_step(platform, invocation, ambient, seen, step),
        !invocation.help,
        seen.built matches Some(Ok(_)),
    ensures
        ({
            let built = seen.built->Some_0->Ok_0;
            &&& runner_step(
                platform,
                invocation.name@,
                texts(invocation.rest@),
                configured_runner(built, ambient),
                seen.runner,
                chosen,
            )
            &&& chosen_step(platform, invocation, built, chosen, ambient, seen.ran, step)
        }),
{
    let built = seen.built->Some_0->Ok_0;
    choose|chosen: RunnerStep| #[trigger]
        runner_step(
            platform,
            invocation.name@,
            texts(invocation.rest@),
            configured_runner(built, ambient),
            seen.runner,
            chosen,
        ) && chosen_step(platform, invocation, built, chosen, ambient, seen.ran, step)
}

/// Cargo is run with the user's subcommand and arguments and the target, in the environment of the
/// build: each of its variables reaches cargo, composed with the user's where they are.
pub proof fn law_cargo_runs_in_the_build_environment(
    platform: Platform,
    invocation: Invocation,
    ambient: Map<Seq<char>, Seq<char>>,
    seen: RunSeen,
    step: RunStep,
)
    requires
        run_step(platform, invocation, ambient, seen, step),
        invocation.rest@.len() > 0,
    ensures
        step matches RunStep::Spawn { command, env, unset, warnings } ==> {
            &&& !invocation.help
            &&& seen.ran is None
            &&& seen.built matches Some(Ok(built))
            &&& texts(command@) == seq![
                "cargo"@,
                invocation.rest@[0]@,
                "--target="@ + built.target.rust_triple@,
            ] + texts(invocation.rest@).skip(1)
            &&& exists|given: Map<Seq<char>, Seq<char>>|
                {
                    &&& env@ == #[trigger] passthrough(
                        given,
                        texts(built.flags.rustflags@),
                        "BINDGEN_EXTRA_CLANG_ARGS_"@ + built.target.rust_underscored(),
                        ambient,
                    )
                    &&& built.env@.dom().subset_of(given.dom())
                    &&& forall|name: Seq<char>| #[trigger]
                        given.contains_key(name) ==> {
                            ||| built.env@.contains_key(name) && given[name] == built.env@[name]
                            ||| name == runner_variable_of(built.target) && (
                            seen.runner.found matches Some(Some(path)) && given[name] == path@)
                                && !ambient.contains_key(name)
                            ||| name == "OHOS_TEST_RUNNER_RUNTIME_LIBRARIES"@ && given[name]
                                == path_list_of(
                                platform,
                                built.runtime_libraries@.map_values(
                                    |library: RuntimeLibrary| library.path@,
                                ),
                            ) && built.runtime_libraries@.len() > 0
                        }
                    &&& texts(warnings@) == warn_all(
                        resolved(given, texts(built.flags.rustflags@)),
                        ambient,
                        "BINDGEN_EXTRA_CLANG_ARGS_"@ + built.target.rust_underscored(),
                    )
                    &&& runs_programs(invocation.name@, texts(invocation.rest@)) ==> {
                        &&& !ambient.contains_key(runner_variable_of(built.target))
                            ==> given.contains_key(runner_variable_of(built.target))
                        &&& built.runtime_libraries@.len() > 0 ==> given.contains_key(
                            "OHOS_TEST_RUNNER_RUNTIME_LIBRARIES"@,
                        )
                    }
                }
        },
        step matches RunStep::ShowHelp(command) ==> invocation.help && texts(command@) == seq!["cargo"@]
            + texts(invocation.rest@),
        step is Build ==> seen.built is None,
{
    if let RunStep::Spawn { command, env, unset, warnings } = step {
        let built = seen.built->Some_0->Ok_0;
        let chosen = lemma_spawn(platform, invocation, ambient, seen, step);
        let runner = match chosen {
            RunnerStep::Configure(path) => Some(path@),
            _ => None,
        };
        let given = if chosen is NotNeeded {
            built.env@
        } else {
            run_env(platform, built, runner)
        };
        assert(texts(invocation.rest@)[0] == invocation.rest@[0]@);
        let paths = built.runtime_libraries@.map_values(|library: RuntimeLibrary| library.path@);
        assert(crate::runner::library_paths(built.runtime_libraries@) =~= paths);
        assert(paths.len() == built.runtime_libraries@.len());
        assert(env@ == passthrough(
            given,
            texts(built.flags.rustflags@),
            "BINDGEN_EXTRA_CLANG_ARGS_"@ + built.target.rust_underscored(),
            ambient,
        ));
    }
}

/// What is run on a device gets what it needs there: cargo is told the runner that was found, unless the
/// user configured one, and the runner the libraries to send along, if there are any.
pub proof fn law_runners_are_told_what_to_send(
    platform: Platform,
    build_env: BuildEnv,
    runner: Option<Seq<char>>,
)
    requires
        runner_variable_of(build_env.target) != "OHOS_TEST_RUNNER_RUNTIME_LIBRARIES"@,
    ensures
        ({
            let env = run_env(platform, build_env, runner);
            let variable = "CARGO_TARGET_"@ + build_env.target.rust_upper() + "_RUNNER"@;
            let paths = build_env.runtime_libraries@.map_values(
                |library: RuntimeLibrary| library.path@,
            );
            let sent = "OHOS_TEST_RUNNER_RUNTIME_LIBRARIES"@;
            &&& runner matches Some(path) ==> env.contains_key(variable) && env[variable] == path
            &&& runner is None ==> env.contains_key(variable) == build_env.env@.contains_key(variable)
            &&& paths.len() > 0 ==> env.contains_key(sent) && env[sent] == path_list_of(platform, paths)
            &&& paths.len() == 0 ==> env.contains_key(sent) == build_env.env@.contains_key(sent)
        }),
{
    let env = run_env(platform, build_env, runner);
    let paths = build_env.runtime_libraries@.map_values(
        |library: RuntimeLibrary| library.path@,
    );
    assert(crate::runner::library_paths(build_env.runtime_libraries@) =~= paths);
}

/// A runner is looked for, asked for its version and configured exactly where programs are going to be
/// run: by a subcommand that runs them, unless it is told not to or only asked for help.
pub proof fn law_runners_are_for_running(
    platform: Platform,
    name: Seq<char>,
    rest: Seq<Seq<char>>,
    configured: Option<Seq<char>>,
    seen: RunnerSeen,
    step: RunnerStep,
)
    requires
        runner_step(platform, name, rest, configured, seen, step),
    ensures
        step is NotNeeded <==> !(name == "r"@ || name == "run"@ || name == "t"@ || name == "test"@ || name
            == "bench"@) || crate::command::before_separator(rest).contains("--no-run"@)
            || crate::command::before_separator(rest).contains("--help"@)
            || crate::command::before_separator(rest).contains("-h"@),
        step is Find || step is Configure ==> configured is None,
        step is UseConfigured ==> configured is Some,
        step matches RunnerStep::Configure(runner) ==> (seen.found matches Some(Some(path)) && runner@
            == path@),
        step matches RunnerStep::Find(program) ==> program@ == "ohos-test-runner"@ && seen.found is None,
        step matches RunnerStep::AskVersion(command) ==> {
            &&& seen.version is None
            &&& command@.len() == 2
            &&& command@[1]@ == "--version"@
            &&& configured matches Some(value) ==> words(value).len() > 0 && command@[0]@
                == words(value)[0] && is_test_runner(platform, command@[0]@)
            &&& configured is None ==> (seen.found matches Some(Some(path)) && command@[0]@ == path@)
        },
        configured matches Some(value) ==> (words(value).len() > 0 ==> (!is_test_runner(
            platform,
            words(value)[0],
        ) ==> step is NotNeeded || step is UseConfigured)),
{
    if let RunnerStep::AskVersion(command) = step {
        let t = texts(command@);
        assert(t.len() == 2);
        assert(t[0] == command@[0]@ && t[1] == command@[1]@);
    }
}

/// The tool's own runner is recent enough from 0.1.5 on: the first number that differs decides.
pub proof fn law_recent_runners(version: Version, other: Version)
    ensures
        recent_enough(version) <==> {
            ||| version.major > 0
            ||| version.major == 0 && version.minor > 1
            ||| version.major == 0 && version.minor == 1 && version.patch >= 5
        },
        recent_enough(version) && (other.major > version.major || (other.major == version.major && (
        other.minor > version.minor || (other.minor == version.minor && other.patch >= version.patch))))
            ==> recent_enough(other),
{
}

/// A program is found at the first place along the search path where it is a file, if there is one. The
/// places are its name in each directory that has one, in order.
pub proof fn law_programs_are_found_along_the_path(
    platform: Platform,
    dirs: Seq<Seq<char>>,
    name: Seq<char>,
    files: Set<Seq<char>>,
)
    ensures
        ({
            let places = program_candidates(platform, dirs, name);
            match first_file(places, files) {
                Some(found) => exists|i: int|
                    0 <= i < places.len() && #[trigger] places[i] == found && files.contains(found)
                        && forall|j: int| 0 <= j < i ==> !files.contains(#[trigger] places[j]),
                None => forall|j: int| 0 <= j < places.len() ==> !files.contains(#[trigger] places[j]),
            }
        }),
        (forall|i: int| 0 <= i < dirs.len() ==> (#[trigger] dirs[i]).len() > 0) ==> program_candidates(
            platform,
            dirs,
            name,
        ) == dirs.map_values(
            |dir: Seq<char>|
                crate::path::program_of(platform, crate::path::joined_path(platform, dir, name)),
        ),
{
    let places = program_candidates(platform, dirs, name);
    let is_file = |place: Seq<char>| files.contains(place);
    lemma_first_index_bounds(places, is_file);
    let at = first_index(places, is_file) as int;
    if at < places.len() {
        assert(is_file(places[at]));
        assert forall|j: int| 0 <= j < at implies !files.contains(#[trigger] places[j]) by {
            assert(!is_file(places[j]));
        }
        assert(places[at] == first_file(places, files)->Some_0);
    } else {
        assert forall|j: int| 0 <= j < places.len() implies !files.contains(#[trigger] places[j]) by {
            assert(!is_file(places[j]));
        }
    }
    if forall|i: int| 0 <= i < dirs.len() ==> (#[trigger] dirs[i]).len() > 0 {
        let named = |dir: Seq<char>| dir.len() > 0;
        crate::laws::text::lemma_filter_keeps_all(dirs, named);
    }
}

/// The runner of a target is configured by the variable cargo has for it.
pub proof fn law_the_variable_of_a_runner(target: Target)
    ensures
        runner_variable_of(target) == "CARGO_TARGET_"@ + target.rust_upper() + "_RUNNER"@,
{
}

/// A program is the tool's own runner if its file name is, in whatever directory.
pub proof fn law_the_tools_own_runner(platform: Platform, program: Seq<char>)
    ensures
        ({
            let parts = crate::path::path_parts(platform, program);
            is_test_runner(platform, program) <==> parts.len() > 0 && (parts.last()
                == "ohos-test-runner"@ || (platform == Platform::Windows && parts.last()
                == "ohos-test-runner.exe"@))
        }),
{
    reveal_strlit("ohos-test-runner");
    reveal_strlit("ohos-test-runner.exe");
    reveal_strlit(".");
    reveal_strlit("..");
    assert("."@.len() == 1 && ".."@.len() == 2 && "ohos-test-runner"@.len() == 16
        && "ohos-test-runner.exe"@.len() == 20);
}

/// The version a runner prints is the last word of the first line, up to what marks it as a
/// pre-release or a build.
pub proof fn law_printed_versions(
    name: Seq<char>,
    version: Version,
    tail: Seq<char>,
    more: Seq<char>,
)
    requires
        name.len() > 0,
        !has_class(name, Class::Whitespace),
        !has_class(tail, Class::Whitespace),
    ensures
        printed_version(name + seq![' '] + version.text() + seq!['\n'] + more) == Some(version),
        printed_version(name + seq![' '] + (version.text() + seq!['-'] + tail) + seq!['\n'] + more)
            == Some(version),
        printed_version(name + seq![' '] + (version.text() + seq!['+'] + tail) + seq!['\n'] + more)
            == Some(version),
        printed_version(seq![]) is None,
{
    let text = version.text();
    lemma_version_text(version);
    law_versions_are_read_back(version);
    let minus = Class::Is('-');
    let plus = Class::Is('+');
    let none = Seq::<char>::empty();
    lemma_first_piece(text, '-', tail, minus);
    lemma_first_piece(text, '+', tail, plus);
    lemma_printed(name, text, more);
    lemma_printed(name, text + seq!['-'] + tail, more);
    lemma_printed(name, text + seq!['+'] + tail, more);
    assert(pieces(text, minus)[0] == text);
    assert(pieces(text, plus)[0] == text);
    assert(pieces(text + seq!['-'] + tail, minus)[0] == text);
    lemma_cut_at_plus(text, tail);
}

/// A version has two numbers or three, and no more; a third that is missing is 0. What is no number is
/// in no version.
pub proof fn law_versions_have_two_numbers_or_three(parts: Seq<Seq<char>>, major: u64, minor: u64)
    ensures
        crate::runner::dotted(seq![decimal(major as nat), decimal(minor as nat)]) == Some(
            Version { major, minor, patch: 0 },
        ),
        crate::runner::dotted(parts) is Some ==> 2 <= parts.len() <= 3 && forall|i: int, k: int|
            0 <= i < parts.len() && 0 <= k < parts[i].len() ==> '0' <= #[trigger] parts[i][k] <= '9',
{
    law_numbers_are_read_back(major as nat, seq![]);
    law_numbers_are_read_back(minor as nat, seq![]);
    assert forall|i: int, k: int|
        crate::runner::dotted(parts) is Some && 0 <= i < parts.len() && 0 <= k
            < parts[i].len() implies '0' <= #[trigger] parts[i][k] <= '9' by {
        law_numbers_are_read_back(0, parts[i]);
    }
}

proof fn lemma_cut_at_plus(text: Seq<char>, tail: Seq<char>)
    requires
        !has_class(text, Class::Is('-')),
        !has_class(text, Class::Is('+')),
    ensures
        pieces(pieces(text + seq!['+'] + tail, Class::Is('-'))[0], Class::Is('+'))[0] == text,
{
    let minus = Class::Is('-');
    let plus = Class::Is('+');
    let word = text + seq!['+'] + tail;
    let at = crate::text::first_in(word, minus) as int;
    crate::text::lemma_first_in(word, minus);
    let front = text + seq!['+'];
    assert(!has_class(front, minus)) by {
        assert forall|i: int| 0 <= i < front.len() implies !in_class(minus, #[trigger] front[i]) by {
            if i < text.len() {
                assert(front[i] == text[i]);
            }
        }
    }
    crate::text::lemma_first_in_concat(front, tail, minus);
    assert(word =~= front + tail);
    assert(at >= front.len());
    let first = pieces(word, minus)[0];
    assert(first == if at == word.len() {
        word
    } else {
        word.take(at)
    });
    let rest = first.skip(front.len() as int);
    assert(first =~= text + seq!['+'] + rest);
    lemma_first_piece(text, '+', rest, plus);
}

proof fn lemma_printed(name: Seq<char>, word: Seq<char>, more: Seq<char>)
    requires
        name.len() > 0,
        word.len() > 0,
        !has_class(name, Class::Whitespace),
        !has_class(word, Class::Whitespace),
    ensures
        ({
            let text = name + seq![' '] + word + seq!['\n'] + more;
            &&& line_seq(text).len() > 0
            &&& words(line_seq(text)[0]).len() == 2
            &&& words(line_seq(text)[0]).last() == word
        }),
{
    let line = name + seq![' '] + word;
    assert(!line.contains('\n')) by {
        assert forall|i: int| 0 <= i < line.len() implies #[trigger] line[i] != '\n' by {
            if i < name.len() {
                assert(line[i] == name[i]);
                assert(!in_class(Class::Whitespace, name[i]));
            } else if i > name.len() {
                assert(line[i] == word[i - name.len() - 1]);
                assert(!in_class(Class::Whitespace, word[i - name.len() - 1]));
            }
        }
    }
    assert(line.last() == word.last());
    assert(!in_class(Class::Whitespace, word[word.len() - 1]));
    crate::laws::text::law_lines(line, more);
    let both = seq![name, word];
    reveal_strlit(" ");
    assert(" "@ =~= seq![' ']);
    reveal_with_fuel(joined, 3);
    assert(both.drop_last() =~= seq![name]);
    assert(joined(both, " "@) =~= line);
    crate::laws::text::law_words_are_read_back(both);
}

proof fn lemma_version_text(version: Version)
    ensures
        version.text().len() > 0,
        !has_class(version.text(), Class::Whitespace),
        !has_class(version.text(), Class::Is('-')),
        !has_class(version.text(), Class::Is('+')),
{
    lemma_decimal_is_read_back(version.major as nat);
    lemma_decimal_is_read_back(version.minor as nat);
    lemma_decimal_is_read_back(version.patch as nat);
    reveal_strlit(".");
    let a = decimal(version.major as nat);
    let b = decimal(version.minor as nat);
    let c = decimal(version.patch as nat);
    let text = version.text();
    assert forall|i: int| 0 <= i < text.len() implies '0' <= #[trigger] text[i] <= '9' || text[i]
        == '.' by {
        if i < a.len() {
            assert(text[i] == a[i]);
            assert(is_digit(a[i]));
        } else if i > a.len() && i < a.len() + 1 + b.len() {
            assert(text[i] == b[i - a.len() - 1]);
            assert(is_digit(b[i - a.len() - 1]));
        } else if i > a.len() + 1 + b.len() {
            assert(text[i] == c[i - a.len() - b.len() - 2]);
            assert(is_digit(c[i - a.len() - b.len() - 2]));
        }
    }
    assert(text.len() >= 2);
}

/// Where programs are going to be run, the tool's own runner is used exactly if it prints a version from
/// 0.1.5 on; one that is older, or prints none, is refused.
pub proof fn law_runners_that_are_used(
    platform: Platform,
    name: Seq<char>,
    rest: Seq<Seq<char>>,
    configured: Option<Seq<char>>,
    seen: RunnerSeen,
    step: RunnerStep,
    output: Output,
)
    requires
        runner_step(platform, name, rest, configured, seen, step),
        runs_programs(name, rest),
        seen.version == Some(Ok::<Output, RunError>(output)),
        configured is None ==> (seen.found matches Some(Some(_))),
        configured matches Some(value) ==> words(value).len() > 0 && is_test_runner(
            platform,
            words(value)[0],
        ),
    ensures
        ({
            let recent = output.code == Some(0i32) && (printed_version(
                crate::text::utf8_lossy(output.stdout@),
            ) matches Some(version) && (version.major > 0 || version.minor > 1 || (version.minor == 1
                && version.patch >= 5)));
            &&& recent && configured is None ==> step is Configure
            &&& recent && configured is Some ==> step is UseConfigured
            &&& !recent ==> step is Fail
        }),
{
}

/// Without a runner programs cannot be run: that is said where none is configured and none is found.
pub proof fn law_runs_without_a_runner(
    platform: Platform,
    name: Seq<char>,
    rest: Seq<Seq<char>>,
    seen: RunnerSeen,
    step: RunnerStep,
)
    requires
        runner_step(platform, name, rest, None, seen, step),
        runs_programs(name, rest),
    ensures
        seen.found is None ==> step is Find,
        (seen.found matches Some(None)) ==> step is Fail,
        (seen.found matches Some(Some(_))) && seen.version is None ==> step is AskVersion,
{
}

} // verus!
