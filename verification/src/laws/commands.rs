//! Laws of carrying out a command: what is asked for, what cargo is run with, and how it ends.

use crate::args::{no_options, split_from, CliOptions, OptionsView};
use crate::command::{
    asks_for_help, before_separator, cargo_command_of, exit_code_of, invocation_is, is_running,
    manifest_path_of, min_api_error, options_are, runs_programs, subcommands, Invocation,
    OptionVariables, Options,
};
use crate::download::safe_component;
use crate::laws::arguments::{is_the_tools, law_other_arguments_reach_cargo};
use crate::process::{succeeded, Output};
use crate::sdk::Sdk;
use crate::sort::{first_index, lemma_first_index_bounds};
use crate::text::texts;
use vstd::prelude::*;

verus! {

/// The cargo subcommands that are carried out are these and no others.
pub proof fn law_subcommands(name: Seq<char>)
    ensures
        subcommands().contains(name) <==> {
            ||| name == "b"@
            ||| name == "bench"@
            ||| name == "build"@
            ||| name == "c"@
            ||| name == "check"@
            ||| name == "clippy"@
            ||| name == "d"@
            ||| name == "doc"@
            ||| name == "fix"@
            ||| name == "r"@
            ||| name == "run"@
            ||| name == "rustc"@
            ||| name == "t"@
            ||| name == "test"@
        },
{
    let all = subcommands();
    assert(all.len() == 14);
    assert(all[0] == "b"@ && all[1] == "bench"@ && all[2] == "build"@ && all[3] == "c"@ && all[4]
        == "check"@ && all[5] == "clippy"@ && all[6] == "d"@ && all[7] == "doc"@ && all[8] == "fix"@
        && all[9] == "r"@ && all[10] == "run"@ && all[11] == "rustc"@ && all[12] == "t"@ && all[13]
        == "test"@);
    if all.contains(name) {
        let i = choose|i: int| 0 <= i < all.len() && all[i] == name;
        assert(all[i] == name);
    }
}

/// Programs are run on a device by these subcommands, all of which are carried out, and by no others.
pub proof fn law_running_subcommands(name: Seq<char>)
    ensures
        is_running(name) <==> name == "r"@ || name == "run"@ || name == "t"@ || name == "test"@ || name
            == "bench"@,
        is_running(name) ==> subcommands().contains(name),
{
    law_subcommands(name);
}

/// What is given on the command line goes before what the environment says, each thing by itself; with
/// neither the target is the default one, and that is noted.
pub proof fn law_the_command_line_goes_first(
    cli: CliOptions,
    variables: OptionVariables,
    res: Result<(Options, Option<String>), String>,
)
    requires
        options_are(cli, variables, res),
    ensures
        res matches Ok((options, note)) ==> {
            &&& cli.target matches Some(target) ==> options.target == target
            &&& cli.target is None ==> (variables.target matches Some(target) ==> options.target
                == target)
            &&& cli.target is None && variables.target is None ==> options.target@
                == "aarch64-unknown-linux-ohos"@
            &&& note is Some <==> cli.target is None && variables.target is None
            &&& options.sdk == cli.sdk
            &&& options.no_inline_flags == cli.no_inline_flags
            &&& options.min_api == cli.min_api
        },
{
}

/// One toolchain is used: the one given on the command line, a directory or a release to download; or
/// else the one the environment names, where an empty release is none. Two at the same place are
/// refused, and so is a release whose name could lead elsewhere; nothing else is.
pub proof fn law_one_toolchain_is_used(
    cli: CliOptions,
    variables: OptionVariables,
    res: Result<(Options, Option<String>), String>,
)
    requires
        options_are(cli, variables, res),
    ensures
        ({
            let given = cli.llvm is Some || cli.download_prebuilt is Some;
            let named = variables.download_prebuilt matches Some(version) && version@.len() > 0;
            let llvm = if given {
                cli.llvm
            } else {
                variables.llvm
            };
            let release = if given {
                cli.download_prebuilt
            } else if named {
                variables.download_prebuilt
            } else {
                None
            };
            &&& res is Ok <==> !(llvm is Some && release is Some) && (release matches Some(version)
                ==> safe_component(version@))
            &&& res matches Ok((options, _)) ==> options.llvm == llvm && options.download_prebuilt
                == release
        }),
{
}

/// An SDK has the level asked for exactly if it declares one that is at least as high.
pub proof fn law_the_level_asked_for(sdk: Sdk, min_api: Option<u32>)
    ensures
        min_api_error(sdk, min_api) is None <==> (min_api matches Some(least) ==> (
        sdk.api_version matches Some(level) && level >= least)),
{
}

/// An argument counts if it stands in front of the first `--`.
pub proof fn law_arguments_in_front_of_the_separator(args: Seq<Seq<char>>, arg: Seq<char>)
    requires
        arg != "--"@,
    ensures
        before_separator(args).contains(arg) <==> exists|i: int|
            0 <= i < args.len() && #[trigger] args[i] == arg && forall|j: int|
                0 <= j < i ==> #[trigger] args[j] != "--"@,
        asks_for_help(args) <==> (before_separator(args).contains("--help"@) || before_separator(
            args,
        ).contains("-h"@)),
{
    let is_separator = |a: Seq<char>| a == "--"@;
    lemma_first_index_bounds(args, is_separator);
    let at = first_index(args, is_separator) as int;
    let front = before_separator(args);
    assert(front == args.take(at));
    assert forall|j: int| 0 <= j < at implies #[trigger] args[j] != "--"@ by {
        assert(!is_separator(args[j]));
    }
    if front.contains(arg) {
        let i = choose|i: int| 0 <= i < front.len() && front[i] == arg;
        assert(args[i] == arg);
    }
    if exists|i: int|
        0 <= i < args.len() && #[trigger] args[i] == arg && forall|j: int|
            0 <= j < i ==> #[trigger] args[j] != "--"@ {
        let i = choose|i: int|
            0 <= i < args.len() && #[trigger] args[i] == arg && forall|j: int|
                0 <= j < i ==> #[trigger] args[j] != "--"@;
        if i >= at {
            assert(is_separator(args[at]));
            assert(at != i);
            assert(args[at] != "--"@);
        }
        assert(front[i] == arg);
    }
}

/// The project a command is about is the one that is named first in front of `--`, as an argument of its
/// own or behind `=`.
pub proof fn law_the_manifest_that_is_named(
    front: Seq<Seq<char>>,
    path: Seq<char>,
    more: Seq<Seq<char>>,
)
    requires
        forall|i: int|
            0 <= i < front.len() ==> #[trigger] front[i] != "--"@ && front[i] != "--manifest-path"@
                && !"--manifest-path="@.is_prefix_of(front[i]),
    ensures
        manifest_path_of(front + seq!["--manifest-path"@, path] + more) == Some(path),
        manifest_path_of(front + seq!["--manifest-path="@ + path] + more) == Some(path),
        manifest_path_of(front) is None,
        manifest_path_of(front + seq!["--"@] + more) is None,
    decreases front.len(),
{
    let separate = front + seq!["--manifest-path"@, path] + more;
    let assigned = front + seq!["--manifest-path="@ + path] + more;
    let behind = front + seq!["--"@] + more;
    if front.len() == 0 {
        reveal_strlit("--");
        reveal_strlit("--manifest-path");
        reveal_strlit("--manifest-path=");
        assert("--"@.len() == 2 && "--manifest-path"@.len() == 15 && "--manifest-path="@.len() == 16);
        assert(separate[0] == "--manifest-path"@ && separate[1] == path);
        let one = "--manifest-path="@ + path;
        assert(assigned[0] == one);
        assert(one.len() >= 16);
        assert("--manifest-path="@.is_prefix_of(one));
        assert(one.skip("--manifest-path="@.len() as int) =~= path);
        assert(behind[0] == "--"@);
    } else {
        let rest = front.drop_first();
        assert forall|i: int| 0 <= i < rest.len() implies #[trigger] rest[i] != "--"@ && rest[i]
            != "--manifest-path"@ && !"--manifest-path="@.is_prefix_of(rest[i]) by {
            assert(rest[i] == front[i + 1]);
        }
        law_the_manifest_that_is_named(rest, path, more);
        assert(front[0] != "--"@);
        assert(separate[0] == front[0] && assigned[0] == front[0] && behind[0] == front[0]);
        assert(separate.drop_first() =~= rest + seq!["--manifest-path"@, path] + more);
        assert(assigned.drop_first() =~= rest + seq!["--manifest-path="@ + path] + more);
        assert(behind.drop_first() =~= rest + seq!["--"@] + more);
    }
}

/// Cargo is run with the subcommand, then the target, then every other argument of the user.
pub proof fn law_cargo_is_told_the_target(
    name: Seq<char>,
    more: Seq<Seq<char>>,
    triple: Seq<char>,
)
    ensures
        cargo_command_of(seq![name] + more, triple) == seq!["cargo"@, name, "--target="@ + triple] + more,
{
    let rest = seq![name] + more;
    assert(rest.skip(1) =~= more);
    assert(cargo_command_of(rest, triple) =~= seq!["cargo"@, name, "--target="@ + triple] + more);
}

/// The exit code is cargo's: it is zero where cargo's is, it is the same where it fits, the highest
/// where cargo's is higher, and not zero where cargo ended without one.
pub proof fn law_exit_codes(code: i32)
    ensures
        0 <= code <= 255 ==> exit_code_of(Some(code)) == code,
        code > 255 ==> exit_code_of(Some(code)) == 255,
        code < 0 ==> 0 <= exit_code_of(Some(code)) < 256 && (exit_code_of(Some(code)) - code) % 256 == 0,
        exit_code_of(None) == 1,
{
    if 0 <= code <= 255 {
        assert(code as int % 256 == code);
    }
    if code < 0 {
        let c = code as int;
        assert((c % 256 - c) % 256 == 0) by (nonlinear_arith);
    }
}

/// A program did what it was to do exactly if it ended with the code zero.
pub proof fn law_success(output: Output)
    ensures
        succeeded(output) <==> (output.code matches Some(code) && code == 0),
{
}

/// Cargo is going to run programs with a subcommand that runs them, unless it is told not to or only
/// asked for help, in front of `--`.
pub proof fn law_when_programs_are_run(name: Seq<char>, rest: Seq<Seq<char>>)
    ensures
        runs_programs(name, rest) <==> (name == "r"@ || name == "run"@ || name == "t"@ || name == "test"@
            || name == "bench"@) && !before_separator(rest).contains("--no-run"@) && !before_separator(
            rest,
        ).contains("--help"@) && !before_separator(rest).contains("-h"@),
{
}

/// A command is carried out if its subcommand is one that is, whatever options of the tool stand around
/// it; its arguments are what is not the tool's.
pub proof fn law_commands_that_are_carried_out(
    args: Seq<Seq<char>>,
    res: Result<Invocation, String>,
)
    requires
        invocation_is(args, res),
    ensures
        res matches Ok(invocation) ==> {
            &&& invocation.rest@.len() > 0
            &&& invocation.name@ == invocation.rest@[0]@
            &&& subcommands().contains(invocation.name@)
            &&& invocation.help == asks_for_help(texts(invocation.rest@))
            &&& split_from(args, no_options(), seq![]) == Ok::<(OptionsView, Seq<Seq<char>>), Seq<char>>(
                (invocation.options@, texts(invocation.rest@)),
            )
        },
        (forall|i: int| 0 <= i < args.len() ==> !is_the_tools(#[trigger] args[i])) && args.len() > 0 ==> {
            &&& res is Ok <==> subcommands().contains(args[0])
            &&& res matches Ok(invocation) ==> texts(invocation.rest@) == args && invocation.options@
                == no_options()
        },
{
    if let Ok(invocation) = res {
        assert(texts(invocation.rest@)[0] == invocation.rest@[0]@);
    }
    if forall|i: int| 0 <= i < args.len() ==> !is_the_tools(#[trigger] args[i]) {
        law_other_arguments_reach_cargo(args, no_options(), seq![]);
        assert(Seq::<Seq<char>>::empty() + args =~= args);
    }
}

} // verus!
