//! What a command line asks for, and what cargo is run with.

use crate::args::{no_options, split_cargo_args, split_from, CliOptions, OptionsView};
use crate::download::safe_component;
use crate::prebuilt::validate_version;
use crate::sdk::Sdk;
use crate::sort::{first_index, lemma_first_index, lemma_first_index_bounds};
use crate::text::{
    after_prefix, cat2, cat3, cat5, decimal, decimal_string, equal, join, joined, opt_text,
    strip_prefix, texts,
};
use vstd::prelude::*;

verus! {

/// The target when none is asked for.
pub const DEFAULT_TARGET: &'static str = "aarch64-unknown-linux-ohos";

/// The cargo subcommands that can be run.
pub open spec fn subcommands() -> Seq<Seq<char>> {
    seq![
        "b"@,
        "bench"@,
        "build"@,
        "c"@,
        "check"@,
        "clippy"@,
        "d"@,
        "doc"@,
        "fix"@,
        "r"@,
        "run"@,
        "rustc"@,
        "t"@,
        "test"@,
    ]
}

pub fn cargo_subcommands() -> (res: Vec<String>)
    ensures
        texts(res@) == subcommands(),
{
    let res = crate::process::argv(
        vec![
            "b", "bench", "build", "c", "check", "clippy", "d", "doc", "fix", "r", "run", "rustc", "t",
            "test",
        ],
    );
    proof {
        assert(texts(res@) =~= subcommands());
    }
    res
}

/// The part of the help that lists the cargo subcommands.
pub fn cargo_commands_help() -> (res: String)
    ensures
        res@ == "Cargo commands:\n  "@ + joined(subcommands(), ", "@)
            + "\n\nThese run the matching cargo command with the OpenHarmony cross-compilation environment set up, e.g. `cargo ohos build --release`. See `cargo ohos build --help` for the extra options they accept."@,
{
    cat3(
        "Cargo commands:\n  ",
        join(&cargo_subcommands(), ", ").as_str(),
        "\n\nThese run the matching cargo command with the OpenHarmony cross-compilation environment set up, e.g. `cargo ohos build --release`. See `cargo ohos build --help` for the extra options they accept.",
    )
}

/// Which toolchain is used: the one at a path, one that is downloaded, or that of the SDK. An option
/// overrides the environment; two of one kind contradict each other.
pub open spec fn toolchain_source_is(
    explicit_llvm: Option<String>,
    explicit_download: Option<String>,
    env_llvm: Option<String>,
    env_download: Option<String>,
    res: Result<(Option<String>, Option<String>), String>,
) -> bool {
    if explicit_llvm is Some && explicit_download is Some {
        res matches Err(message) && message@
            == "`--llvm` and `--download-prebuilt` select different LLVM toolchains and cannot be used together"@
    } else if explicit_llvm is Some || explicit_download is Some {
        res == Ok::<(Option<String>, Option<String>), String>((explicit_llvm, explicit_download))
    } else if env_llvm is Some && env_download is Some {
        res matches Err(message) && message@
            == "$OHOS_LLVM and $CARGO_OHOS_DOWNLOAD_PREBUILT are both set; unset one of them"@
    } else {
        res == Ok::<(Option<String>, Option<String>), String>((env_llvm, env_download))
    }
}

pub fn resolve_toolchain_source(
    explicit_llvm: Option<String>,
    explicit_download: Option<String>,
    env_llvm: Option<String>,
    env_download: Option<String>,
) -> (res: Result<(Option<String>, Option<String>), String>)
    ensures
        toolchain_source_is(explicit_llvm, explicit_download, env_llvm, env_download, res),
{
    match (explicit_llvm, explicit_download) {
        (Some(_), Some(_)) => Err(
            "`--llvm` and `--download-prebuilt` select different LLVM toolchains and cannot be used together".to_owned(),
        ),
        (Some(llvm), None) => Ok((Some(llvm), None)),
        (None, Some(download)) => Ok((None, Some(download))),
        (None, None) => match (env_llvm, env_download) {
            (Some(_), Some(_)) => Err(
                "$OHOS_LLVM and $CARGO_OHOS_DOWNLOAD_PREBUILT are both set; unset one of them".to_owned(),
            ),
            (llvm, download) => Ok((llvm, download)),
        },
    }
}

/// An option that selects a toolchain overrides the environment, whichever the environment selects.
pub proof fn law_options_override_the_environment(
    explicit_llvm: Option<String>,
    explicit_download: Option<String>,
    env_llvm: Option<String>,
    env_download: Option<String>,
    res: Result<(Option<String>, Option<String>), String>,
)
    requires
        toolchain_source_is(explicit_llvm, explicit_download, env_llvm, env_download, res),
        explicit_llvm is Some != explicit_download is Some,
    ensures
        res == Ok::<(Option<String>, Option<String>), String>((explicit_llvm, explicit_download)),
{
}

/// At most one toolchain is selected.
pub proof fn law_at_most_one_toolchain_is_selected(
    explicit_llvm: Option<String>,
    explicit_download: Option<String>,
    env_llvm: Option<String>,
    env_download: Option<String>,
    res: Result<(Option<String>, Option<String>), String>,
)
    requires
        toolchain_source_is(explicit_llvm, explicit_download, env_llvm, env_download, res),
    ensures
        res matches Ok((llvm, download)) ==> llvm is None || download is None,
{
}

/// The target asked for, and the note that it is the default one, if it is.
pub open spec fn target_is(
    explicit: Option<String>,
    env_target: Option<String>,
    target: String,
    note: Option<String>,
) -> bool {
    match (explicit, env_target) {
        (Some(name), _) => target == name && note is None,
        (None, Some(name)) => target == name && note is None,
        (None, None) => {
            &&& target@ == "aarch64-unknown-linux-ohos"@
            &&& note matches Some(text)
            &&& text@
                == "note: no target given, defaulting to aarch64-unknown-linux-ohos (override with --target or $CARGO_BUILD_TARGET)"@
        },
    }
}

/// The target: the one given, or that of the environment (`CARGO_BUILD_TARGET`), or the default one,
/// with a note that it is.
pub fn resolve_target(explicit: Option<String>, env_target: Option<String>) -> (res: (
    String,
    Option<String>,
))
    ensures
        target_is(explicit, env_target, res.0, res.1),
{
    match (explicit, env_target) {
        (Some(name), _) => (name, None),
        (None, Some(name)) => (name, None),
        (None, None) => (
            DEFAULT_TARGET.to_owned(),
            Some(
                "note: no target given, defaulting to aarch64-unknown-linux-ohos (override with --target or $CARGO_BUILD_TARGET)".to_owned(),
            ),
        ),
    }
}

/// The options, with the environment taken into account.
pub struct Options {
    pub target: String,
    pub sdk: Option<String>,
    pub llvm: Option<String>,
    pub download_prebuilt: Option<String>,
    pub no_inline_flags: bool,
    pub min_api: Option<u32>,
}

/// The environment variables that stand in for options.
pub struct OptionVariables {
    /// `OHOS_LLVM`.
    pub llvm: Option<String>,
    /// `CARGO_OHOS_DOWNLOAD_PREBUILT`.
    pub download_prebuilt: Option<String>,
    /// `CARGO_BUILD_TARGET`.
    pub target: Option<String>,
}

/// A variable that is set to nothing counts as not set.
pub open spec fn not_empty(value: Option<String>) -> Option<String> {
    if value matches Some(text) && text@.len() > 0 {
        value
    } else {
        None
    }
}

/// The options `cli` and the environment amount to, with the note to print; or why they do not go
/// together.
pub open spec fn options_are(
    cli: CliOptions,
    variables: OptionVariables,
    res: Result<(Options, Option<String>), String>,
) -> bool {
    let download = not_empty(variables.download_prebuilt);
    if (cli.llvm is Some && cli.download_prebuilt is Some) || (cli.llvm is None
        && cli.download_prebuilt is None && variables.llvm is Some && download is Some) {
        res matches Err(message) && toolchain_source_is(
            cli.llvm,
            cli.download_prebuilt,
            variables.llvm,
            download,
            Err(message),
        )
    } else {
        let explicit = cli.llvm is Some || cli.download_prebuilt is Some;
        let llvm = if explicit {
            cli.llvm
        } else {
            variables.llvm
        };
        let prebuilt = if explicit {
            cli.download_prebuilt
        } else {
            download
        };
        if prebuilt matches Some(version) && !safe_component(version@) {
            res matches Err(message) && message@ == "invalid prebuilt LLVM version `"@
                + prebuilt->Some_0@ + "`; expected a version such as `19` or `19.1.4-79830f`"@
        } else {
            &&& res matches Ok((options, note))
            &&& target_is(cli.target, variables.target, options.target, note)
            &&& options.sdk == cli.sdk
            &&& options.llvm == llvm
            &&& options.download_prebuilt == prebuilt
            &&& options.no_inline_flags == cli.no_inline_flags
            &&& options.min_api == cli.min_api
        }
    }
}

impl Options {
    /// The options, with the environment taken into account, and a note to print.
    pub fn from_cli(cli: CliOptions, variables: OptionVariables) -> (res: Result<
        (Self, Option<String>),
        String,
    >)
        ensures
            options_are(cli, variables, res),
    {
        let env_download = match variables.download_prebuilt {
            Some(value) => if value.as_str().is_empty() {
                None
            } else {
                Some(value)
            },
            None => None,
        };
        let (llvm, download_prebuilt) = match resolve_toolchain_source(
            cli.llvm,
            cli.download_prebuilt,
            variables.llvm,
            env_download,
        ) {
            Ok(source) => source,
            Err(message) => return Err(message),
        };
        if let Some(version) = &download_prebuilt {
            match validate_version(version.as_str()) {
                Ok(()) => {},
                Err(message) => return Err(message),
            }
        }
        let (target, note) = resolve_target(cli.target, variables.target);
        Ok(
            (
                Options {
                    target,
                    sdk: cli.sdk,
                    llvm,
                    download_prebuilt,
                    no_inline_flags: cli.no_inline_flags,
                    min_api: cli.min_api,
                },
                note,
            ),
        )
    }
}

/// Why the SDK does not have the API level asked for; none if it has.
pub open spec fn min_api_error(sdk: Sdk, min_api: Option<u32>) -> Option<Seq<char>> {
    match min_api {
        None => None,
        Some(min) => match sdk.api_version {
            Some(api) => if api >= min {
                None
            } else {
                Some(
                    "The OpenHarmony SDK at "@ + sdk.native_root@ + " has API level "@ + decimal(
                        api as nat,
                    ) + ", but --min-api requires at least "@ + decimal(min as nat),
                )
            },
            None => Some(
                "--min-api "@ + decimal(min as nat) + " was given, but the SDK at "@ + sdk.native_root@
                    + " does not declare an API level (missing or unreadable oh-uni-package.json)"@,
            ),
        },
    }
}

/// Fails if the SDK's API level is not known to be at least the one asked for.
pub fn check_min_api(sdk: &Sdk, min_api: Option<u32>) -> (res: Result<(), String>)
    ensures
        match res {
            Ok(()) => min_api_error(*sdk, min_api) is None,
            Err(message) => min_api_error(*sdk, min_api) == Some(message@),
        },
{
    let min = match min_api {
        Some(min) => min,
        None => return Ok(()),
    };
    match sdk.api_version {
        Some(api) => if api >= min {
            Ok(())
        } else {
            Err(
                crate::text::cat6(
                    "The OpenHarmony SDK at ",
                    sdk.native_root.as_str(),
                    " has API level ",
                    decimal_string(api as u64).as_str(),
                    ", but --min-api requires at least ",
                    decimal_string(min as u64).as_str(),
                ),
            )
        },
        None => Err(
            cat5(
                "--min-api ",
                decimal_string(min as u64).as_str(),
                " was given, but the SDK at ",
                sdk.native_root.as_str(),
                " does not declare an API level (missing or unreadable oh-uni-package.json)",
            ),
        ),
    }
}

/// The arguments in front of `--`.
pub open spec fn before_separator(args: Seq<Seq<char>>) -> Seq<Seq<char>> {
    args.take(first_index(args, |arg: Seq<char>| arg == "--"@) as int)
}

/// Whether help is asked for.
pub open spec fn asks_for_help(args: Seq<Seq<char>>) -> bool {
    before_separator(args).contains("--help"@) || before_separator(args).contains("-h"@)
}

/// Whether the subcommand runs what it builds.
pub open spec fn is_running(name: Seq<char>) -> bool {
    name == "r"@ || name == "run"@ || name == "t"@ || name == "test"@ || name == "bench"@
}

/// The number of arguments in front of `--`.
fn separator(args: &Vec<String>) -> (res: usize)
    ensures
        res <= args.len(),
        res == first_index(texts(args@), |arg: Seq<char>| arg == "--"@),
{
    let ghost all = texts(args@);
    let mut i: usize = 0;
    while i < args.len() && !equal(args[i].as_str(), "--")
        invariant
            i <= args.len(),
            all == texts(args@),
            forall|k: int| 0 <= k < i ==> #[trigger] all[k] != "--"@,
        decreases args.len() - i,
    {
        proof {
            assert(all[i as int] == args@[i as int]@);
        }
        i += 1;
    }
    proof {
        if i < args.len() {
            assert(all[i as int] == args@[i as int]@);
        }
        lemma_first_index(all, |arg: Seq<char>| arg == "--"@, i as int);
    }
    i
}

fn has_argument(args: &Vec<String>, wanted: &str) -> (res: bool)
    ensures
        res == before_separator(texts(args@)).contains(wanted@),
{
    let end = separator(args);
    let ghost front = before_separator(texts(args@));
    let mut i: usize = 0;
    while i < end
        invariant
            i <= end <= args.len(),
            front == texts(args@).take(end as int),
            front == before_separator(texts(args@)),
            forall|k: int| 0 <= k < i ==> #[trigger] front[k] != wanted@,
        decreases end - i,
    {
        proof {
            assert(front[i as int] == args@[i as int]@);
        }
        if equal(args[i].as_str(), wanted) {
            return true;
        }
        i += 1;
    }
    false
}

/// Whether the arguments ask for cargo's help: what stands behind `--` is for the program.
pub fn wants_cargo_help(rest: &Vec<String>) -> (res: bool)
    ensures
        res == asks_for_help(texts(rest@)),
{
    has_argument(rest, "--help") || has_argument(rest, "-h")
}

/// Whether cargo is going to run programs for the target.
pub open spec fn runs_programs(name: Seq<char>, rest: Seq<Seq<char>>) -> bool {
    is_running(name) && !before_separator(rest).contains("--no-run"@) && !asks_for_help(rest)
}

/// Whether cargo is going to run programs for the target.
pub fn runs_target_binaries(name: &str, rest: &Vec<String>) -> (res: bool)
    ensures
        res == (is_running(name@) && !before_separator(texts(rest@)).contains("--no-run"@)
            && !asks_for_help(texts(rest@))),
        res == runs_programs(name@, texts(rest@)),
{
    (equal(name, "r") || equal(name, "run") || equal(name, "t") || equal(name, "test") || equal(
        name,
        "bench",
    )) && !has_argument(rest, "--no-run") && !wants_cargo_help(rest)
}

/// The project the arguments name: the value of the first `--manifest-path` in front of `--`.
pub open spec fn manifest_path_of(args: Seq<Seq<char>>) -> Option<Seq<char>>
    decreases args.len(),
{
    if args.len() == 0 || args[0] == "--"@ {
        None
    } else if args[0] == "--manifest-path"@ {
        if args.len() > 1 {
            Some(args[1])
        } else {
            None
        }
    } else {
        match after_prefix(args[0], "--manifest-path="@) {
            Some(path) => Some(path),
            None => manifest_path_of(args.drop_first()),
        }
    }
}

pub fn manifest_path(args: &Vec<String>) -> (res: Option<String>)
    ensures
        opt_text(res) == manifest_path_of(texts(args@)),
{
    let ghost all = texts(args@);
    let mut i: usize = 0;
    proof {
        assert(all.skip(0) =~= all);
    }
    while i < args.len()
        invariant
            i <= args.len(),
            all == texts(args@),
            manifest_path_of(all) == manifest_path_of(all.skip(i as int)),
        decreases args.len() - i,
    {
        let arg = args[i].as_str();
        let ghost left = all.skip(i as int);
        proof {
            assert(left[0] == arg@);
            assert(left.drop_first() =~= all.skip(i + 1));
        }
        if equal(arg, "--") {
            return None;
        }
        if equal(arg, "--manifest-path") {
            if i + 1 < args.len() {
                proof {
                    assert(left[1] == args@[i + 1]@);
                }
                return Some(args[i + 1].clone());
            }
            return None;
        }
        if let Some(path) = strip_prefix(arg, "--manifest-path=") {
            return Some(path);
        }
        i += 1;
    }
    None
}

/// What a cargo subcommand line asks for.
pub struct Invocation {
    pub options: CliOptions,
    /// The subcommand.
    pub name: String,
    /// What is cargo's, the subcommand first.
    pub rest: Vec<String>,
    /// Whether only help is asked for.
    pub help: bool,
}

/// What `args` ask for, if anything.
pub open spec fn invocation_is(args: Seq<Seq<char>>, res: Result<Invocation, String>) -> bool {
    match (split_from(args, no_options(), seq![]), res) {
        (Ok((options, rest)), Ok(invocation)) => {
            &&& rest.len() > 0
            &&& subcommands().contains(rest[0])
            &&& invocation.options@ == options
            &&& texts(invocation.rest@) == rest
            &&& invocation.name@ == rest[0]
            &&& invocation.help == asks_for_help(rest)
        },
        (Ok((_, rest)), Err(_)) => rest.len() == 0 || !subcommands().contains(rest[0]),
        (Err(_), _) => res is Err,
    }
}

/// What `args` ask for, or why they do not ask for anything.
pub fn parse_invocation(args: Vec<String>) -> (res: Result<Invocation, String>)
    ensures
        match split_from(texts(args@), no_options(), seq![]) {
            Err(text) => res matches Err(message) && message@ == text,
            Ok((options, rest)) => if rest.len() > 0 && subcommands().contains(rest[0]) {
                &&& res matches Ok(invocation)
                &&& invocation.options@ == options
                &&& texts(invocation.rest@) == rest
                &&& invocation.name@ == rest[0]
                &&& invocation.help == asks_for_help(rest)
            } else {
                res matches Err(message) && message@ == "unsupported cargo subcommand. Supported: "@
                    + joined(subcommands(), ", "@)
            },
        },
        invocation_is(texts(args@), res),
{
    let (options, rest) = match split_cargo_args(args) {
        Ok(split) => split,
        Err(message) => return Err(message),
    };
    let known = cargo_subcommands();
    let ghost all = texts(rest@);
    if rest.len() > 0 {
        proof {
            assert(all[0] == rest@[0]@);
        }
        let mut i: usize = 0;
        while i < known.len()
            invariant
                i <= known.len(),
                rest.len() > 0,
                texts(known@) == subcommands(),
                all == texts(rest@),
                all[0] == rest@[0]@,
                split_from(texts(args@), no_options(), seq![]) == Ok::<
                    (OptionsView, Seq<Seq<char>>),
                    Seq<char>,
                >((options@, all)),
                forall|k: int| 0 <= k < i ==> #[trigger] subcommands()[k] != all[0],
            decreases known.len() - i,
        {
            proof {
                assert(subcommands()[i as int] == known@[i as int]@);
            }
            if equal(known[i].as_str(), rest[0].as_str()) {
                let name = rest[0].clone();
                let help = wants_cargo_help(&rest);
                return Ok(Invocation { options, name, rest, help });
            }
            i += 1;
        }
    }
    Err(cat2("unsupported cargo subcommand. Supported: ", join(&known, ", ").as_str()))
}

/// What cargo is run with. The arguments may hold a `--`, so the target goes directly behind the
/// subcommand.
pub open spec fn cargo_command_of(rest: Seq<Seq<char>>, triple: Seq<char>) -> Seq<Seq<char>> {
    seq!["cargo"@, rest[0], "--target="@ + triple] + rest.skip(1)
}

pub fn cargo_command(rest: &Vec<String>, triple: &str) -> (res: Vec<String>)
    requires
        rest.len() > 0,
    ensures
        texts(res@) == cargo_command_of(texts(rest@), triple@),
{
    let mut res: Vec<String> = Vec::new();
    res.push("cargo".to_owned());
    res.push(rest[0].clone());
    res.push(cat2("--target=", triple));
    let mut i: usize = 1;
    while i < rest.len()
        invariant
            1 <= i <= rest.len(),
            res.len() == i + 2,
            res@[0]@ == "cargo"@,
            res@[1]@ == rest@[0]@,
            res@[2]@ == "--target="@ + triple@,
            forall|k: int| 1 <= k < i ==> (#[trigger] res@[k + 2])@ == rest@[k]@,
        decreases rest.len() - i,
    {
        res.push(rest[i].clone());
        i += 1;
    }
    proof {
        let goal = cargo_command_of(texts(rest@), triple@);
        assert forall|k: int| 0 <= k < res.len() implies texts(res@)[k] == #[trigger] goal[k] by {
            if k >= 3 {
                assert(res@[(k - 2) + 2]@ == rest@[k - 2]@);
            }
        }
        assert(texts(res@) =~= goal);
    }
    res
}

/// The command that prints cargo's own help: the arguments as they are.
pub fn help_command(rest: &Vec<String>) -> (res: Vec<String>)
    ensures
        texts(res@) == seq!["cargo"@] + texts(rest@),
{
    let mut res: Vec<String> = Vec::new();
    res.push("cargo".to_owned());
    let mut i: usize = 0;
    while i < rest.len()
        invariant
            i <= rest.len(),
            res.len() == i + 1,
            res@[0]@ == "cargo"@,
            forall|k: int| 0 <= k < i ==> (#[trigger] res@[k + 1])@ == rest@[k]@,
        decreases rest.len() - i,
    {
        res.push(rest[i].clone());
        i += 1;
    }
    proof {
        let goal = seq!["cargo"@] + texts(rest@);
        assert forall|k: int| 0 <= k < res.len() implies texts(res@)[k] == #[trigger] goal[k] by {
            if k >= 1 {
                assert(res@[(k - 1) + 1]@ == rest@[k - 1]@);
            }
        }
        assert(texts(res@) =~= goal);
    }
    res
}

/// The exit code of a command, as this process passes it on.
pub open spec fn exit_code_of(code: Option<i32>) -> int {
    match code {
        Some(code) => if code > 255 {
            255
        } else {
            code as int % 256
        },
        None => 1,
    }
}

/// The exit code to end with: that of the command, as far as it fits; a command that was killed
/// counts as failed.
pub fn exit_code(code: Option<i32>) -> (res: u8)
    ensures
        res == exit_code_of(code),
{
    match code {
        Some(code) => if code > 255 {
            255
        } else {
            let low: i32 = code % 256;
            if low < 0 {
                (low + 256) as u8
            } else {
                low as u8
            }
        },
        None => 1,
    }
}

/// The injected target is the first argument behind the subcommand, in front of any `--`, and every
/// other argument of the user follows unchanged.
pub proof fn law_target_precedes_the_separator(rest: Seq<Seq<char>>, triple: Seq<char>)
    requires
        rest.len() > 0,
        rest[0] != "--"@,
    ensures
        before_separator(cargo_command_of(rest, triple)).contains("--target="@ + triple),
        cargo_command_of(rest, triple).remove(2).skip(1) == rest,
{
    let command = cargo_command_of(rest, triple);
    let separates = |arg: Seq<char>| arg == "--"@;
    reveal_strlit("--");
    reveal_strlit("cargo");
    reveal_strlit("--target=");
    lemma_first_index_bounds(command, separates);
    assert(command[0] == "cargo"@ && "cargo"@.len() == 5);
    assert(command[1] == rest[0]);
    assert(command[2] == "--target="@ + triple);
    assert(command[2].len() >= 9);
    assert(!separates(command[0]) && !separates(command[1]) && !separates(command[2]));
    let n = first_index(command, separates) as int;
    assert(n >= 3);
    assert(before_separator(command)[2] == command[2]);
    assert(command.remove(2).skip(1) =~= rest);
}

} // verus!
