//! The command line of the cargo subcommands: which arguments are the tool's own, and which are
//! cargo's.

use crate::text::{after_prefix, cat3, equal, opt_text, parse_u32, parsed_u32, strip_prefix, texts};
use vstd::prelude::*;

verus! {

/// The tool's own options, as they are given.
#[derive(Debug)]
pub struct CliOptions {
    pub target: Option<String>,
    pub sdk: Option<String>,
    pub llvm: Option<String>,
    pub download_prebuilt: Option<String>,
    pub no_inline_flags: bool,
    pub min_api: Option<u32>,
}

/// What a set of options says.
pub ghost struct OptionsView {
    pub target: Option<Seq<char>>,
    pub sdk: Option<Seq<char>>,
    pub llvm: Option<Seq<char>>,
    pub download_prebuilt: Option<Seq<char>>,
    pub no_inline_flags: bool,
    pub min_api: Option<u32>,
}

impl View for CliOptions {
    type V = OptionsView;

    open spec fn view(&self) -> OptionsView {
        OptionsView {
            target: opt_text(self.target),
            sdk: opt_text(self.sdk),
            llvm: opt_text(self.llvm),
            download_prebuilt: opt_text(self.download_prebuilt),
            no_inline_flags: self.no_inline_flags,
            min_api: self.min_api,
        }
    }
}

/// The options that take a value.
#[derive(Debug, Clone, Copy, PartialEq, Eq, Structural)]
pub enum Valued {
    Target,
    Sdk,
    Llvm,
    DownloadPrebuilt,
    MinApi,
}

/// No option given.
pub open spec fn no_options() -> OptionsView {
    OptionsView {
        target: None,
        sdk: None,
        llvm: None,
        download_prebuilt: None,
        no_inline_flags: false,
        min_api: None,
    }
}

/// The option whose value is the argument after `arg`.
pub open spec fn option_named(arg: Seq<char>) -> Option<Valued> {
    if arg == "-t"@ || arg == "--target"@ {
        Some(Valued::Target)
    } else if arg == "--sdk"@ {
        Some(Valued::Sdk)
    } else if arg == "--llvm"@ {
        Some(Valued::Llvm)
    } else if arg == "--download-prebuilt"@ {
        Some(Valued::DownloadPrebuilt)
    } else if arg == "--min-api"@ {
        Some(Valued::MinApi)
    } else {
        None
    }
}

/// The name under which a missing value is reported.
pub open spec fn option_name(option: Valued) -> Seq<char> {
    match option {
        Valued::Target => "--target"@,
        Valued::Sdk => "--sdk"@,
        Valued::Llvm => "--llvm"@,
        Valued::DownloadPrebuilt => "--download-prebuilt"@,
        Valued::MinApi => "--min-api"@,
    }
}

/// The option that `arg` gives together with its value.
pub open spec fn option_assigned(arg: Seq<char>) -> Option<(Valued, Seq<char>)> {
    match after_prefix(arg, "--target="@) {
        Some(value) => Some((Valued::Target, value)),
        None => match after_prefix(arg, "--download-prebuilt="@) {
            Some(value) => Some((Valued::DownloadPrebuilt, value)),
            None => match after_prefix(arg, "--min-api="@) {
                Some(value) => Some((Valued::MinApi, value)),
                None => None,
            },
        },
    }
}

/// The options with one more of them given, or why its value is not one.
pub open spec fn with_option(options: OptionsView, option: Valued, value: Seq<char>) -> Result<
    OptionsView,
    Seq<char>,
> {
    match option {
        Valued::Target => Ok(OptionsView { target: Some(value), ..options }),
        Valued::Sdk => Ok(OptionsView { sdk: Some(value), ..options }),
        Valued::Llvm => Ok(OptionsView { llvm: Some(value), ..options }),
        Valued::DownloadPrebuilt => Ok(OptionsView { download_prebuilt: Some(value), ..options }),
        Valued::MinApi => match parsed_u32(value) {
            Some(level) => Ok(OptionsView { min_api: Some(level), ..options }),
            None => Err("invalid API level after `--min-api`: `"@ + value + "`"@),
        },
    }
}

/// Splits `args`, given what the arguments before them were split into. Everything from `--` on
/// belongs to cargo or the program it runs.
pub open spec fn split_from(args: Seq<Seq<char>>, options: OptionsView, rest: Seq<Seq<char>>) -> Result<
    (OptionsView, Seq<Seq<char>>),
    Seq<char>,
>
    decreases args.len(),
{
    if args.len() == 0 {
        Ok((options, rest))
    } else if args[0] == "--"@ {
        Ok((options, rest + args))
    } else if args[0] == "--no-inline-flags"@ {
        split_from(args.skip(1), OptionsView { no_inline_flags: true, ..options }, rest)
    } else {
        match option_named(args[0]) {
            Some(option) => if args.len() < 2 {
                Err("missing value after `"@ + option_name(option) + "`"@)
            } else {
                match with_option(options, option, args[1]) {
                    Ok(more) => split_from(args.skip(2), more, rest),
                    Err(message) => Err(message),
                }
            },
            None => match option_assigned(args[0]) {
                Some((option, value)) => match with_option(options, option, value) {
                    Ok(more) => split_from(args.skip(1), more, rest),
                    Err(message) => Err(message),
                },
                None => split_from(args.skip(1), options, rest.push(args[0])),
            },
        }
    }
}

fn named(arg: &str) -> (res: Option<Valued>)
    ensures
        res == option_named(arg@),
{
    if equal(arg, "-t") || equal(arg, "--target") {
        Some(Valued::Target)
    } else if equal(arg, "--sdk") {
        Some(Valued::Sdk)
    } else if equal(arg, "--llvm") {
        Some(Valued::Llvm)
    } else if equal(arg, "--download-prebuilt") {
        Some(Valued::DownloadPrebuilt)
    } else if equal(arg, "--min-api") {
        Some(Valued::MinApi)
    } else {
        None
    }
}

fn name_of(option: Valued) -> (res: &'static str)
    ensures
        res@ == option_name(option),
{
    match option {
        Valued::Target => "--target",
        Valued::Sdk => "--sdk",
        Valued::Llvm => "--llvm",
        Valued::DownloadPrebuilt => "--download-prebuilt",
        Valued::MinApi => "--min-api",
    }
}

fn assigned(arg: &str) -> (res: Option<(Valued, String)>)
    ensures
        match res {
            Some((option, value)) => option_assigned(arg@) == Some((option, value@)),
            None => option_assigned(arg@) is None,
        },
{
    if let Some(value) = strip_prefix(arg, "--target=") {
        Some((Valued::Target, value))
    } else if let Some(value) = strip_prefix(arg, "--download-prebuilt=") {
        Some((Valued::DownloadPrebuilt, value))
    } else if let Some(value) = strip_prefix(arg, "--min-api=") {
        Some((Valued::MinApi, value))
    } else {
        None
    }
}

pub fn parse_min_api(value: &str) -> (res: Result<u32, String>)
    ensures
        match res {
            Ok(level) => parsed_u32(value@) == Some(level),
            Err(message) => {
                &&& parsed_u32(value@) is None
                &&& message@ == "invalid API level after `--min-api`: `"@ + value@ + "`"@
            },
        },
{
    match parse_u32(value) {
        Some(level) => Ok(level),
        None => Err(cat3("invalid API level after `--min-api`: `", value, "`")),
    }
}

impl CliOptions {
    pub fn new() -> (res: Self)
        ensures
            res@ == no_options(),
    {
        CliOptions {
            target: None,
            sdk: None,
            llvm: None,
            download_prebuilt: None,
            no_inline_flags: false,
            min_api: None,
        }
    }

    fn set(&mut self, option: Valued, value: String) -> (res: Result<(), String>)
        ensures
            match res {
                Ok(()) => with_option(old(self)@, option, value@) == Ok::<OptionsView, Seq<char>>(
                    final(self)@,
                ),
                Err(message) => with_option(old(self)@, option, value@) == Err::<
                    OptionsView,
                    Seq<char>,
                >(message@),
            },
    {
        match option {
            Valued::Target => {
                self.target = Some(value);
            },
            Valued::Sdk => {
                self.sdk = Some(value);
            },
            Valued::Llvm => {
                self.llvm = Some(value);
            },
            Valued::DownloadPrebuilt => {
                self.download_prebuilt = Some(value);
            },
            Valued::MinApi => match parse_min_api(value.as_str()) {
                Ok(level) => {
                    self.min_api = Some(level);
                },
                Err(message) => return Err(message),
            },
        }
        Ok(())
    }
}

/// Splits the arguments of a cargo subcommand into the tool's own options and what is cargo's.
pub fn split_cargo_args(args: Vec<String>) -> (res: Result<(CliOptions, Vec<String>), String>)
    ensures
        match res {
            Ok((options, rest)) => split_from(texts(args@), no_options(), seq![]) == Ok::<
                (OptionsView, Seq<Seq<char>>),
                Seq<char>,
            >((options@, texts(rest@))),
            Err(message) => split_from(texts(args@), no_options(), seq![]) == Err::<
                (OptionsView, Seq<Seq<char>>),
                Seq<char>,
            >(message@),
        },
{
    let ghost all = texts(args@);
    let ghost goal = split_from(all, no_options(), seq![]);
    let mut options = CliOptions::new();
    let mut rest: Vec<String> = Vec::new();
    let mut i: usize = 0;
    proof {
        assert(all.skip(0) =~= all);
        assert(texts(rest@) =~= seq![]);
    }
    while i < args.len()
        invariant
            i <= args.len(),
            all == texts(args@),
            goal == split_from(all, no_options(), seq![]),
            goal == split_from(all.skip(i as int), options@, texts(rest@)),
        decreases args.len() - i,
    {
        let ghost left = all.skip(i as int);
        let arg = args[i].as_str();
        proof {
            assert(left[0] == arg@);
            assert(left.skip(1) =~= all.skip(i + 1));
            if i + 1 < args.len() {
                assert(left[1] == args@[i + 1]@);
                assert(left.skip(2) =~= all.skip(i + 2));
            }
        }
        if equal(arg, "--") {
            let ghost before = texts(rest@);
            let start: usize = i;
            while i < args.len()
                invariant
                    start <= i <= args.len(),
                    all == texts(args@),
                    left == all.skip(start as int),
                    texts(rest@) == before + left.take(i - start),
                decreases args.len() - i,
            {
                let ghost was = texts(rest@);
                rest.push(args[i].clone());
                proof {
                    assert(texts(rest@) =~= was.push(args@[i as int]@));
                    assert(left.take(i + 1 - start) =~= left.take(i - start).push(args@[i as int]@));
                    assert(before + left.take(i + 1 - start) =~= was.push(args@[i as int]@));
                }
                i += 1;
            }
            proof {
                assert(left.take(i - start) =~= left);
            }
            return Ok((options, rest));
        }
        if equal(arg, "--no-inline-flags") {
            options.no_inline_flags = true;
            i += 1;
        } else if let Some(option) = named(arg) {
            if i + 1 >= args.len() {
                return Err(cat3("missing value after `", name_of(option), "`"));
            }
            match options.set(option, args[i + 1].clone()) {
                Ok(()) => {},
                Err(message) => return Err(message),
            }
            i += 2;
        } else if let Some((option, value)) = assigned(arg) {
            match options.set(option, value) {
                Ok(()) => {},
                Err(message) => return Err(message),
            }
            i += 1;
        } else {
            let ghost before = texts(rest@);
            rest.push(args[i].clone());
            proof {
                assert(texts(rest@) =~= before.push(arg@));
            }
            i += 1;
        }
    }
    Ok((options, rest))
}

/// Whether `arg` is one of the tool's own options.
pub open spec fn is_own(arg: Seq<char>) -> bool {
    arg == "--no-inline-flags"@ || option_named(arg) is Some || option_assigned(arg) is Some
}

/// Arguments that are none of the tool's own options reach cargo unchanged and in order.
pub proof fn law_foreign_arguments_pass_through(
    args: Seq<Seq<char>>,
    options: OptionsView,
    rest: Seq<Seq<char>>,
)
    requires
        forall|i: int| 0 <= i < args.len() ==> !is_own(#[trigger] args[i]),
    ensures
        split_from(args, options, rest) == Ok::<(OptionsView, Seq<Seq<char>>), Seq<char>>(
            (options, rest + args),
        ),
    decreases args.len(),
{
    if args.len() == 0 {
        assert(rest + args =~= rest);
    } else if args[0] != "--"@ {
        let more = args.skip(1);
        assert(!is_own(args[0]));
        assert forall|i: int| 0 <= i < more.len() implies !is_own(#[trigger] more[i]) by {
            assert(more[i] == args[i + 1]);
        }
        law_foreign_arguments_pass_through(more, options, rest.push(args[0]));
        assert(rest.push(args[0]) + more =~= rest + args);
    }
}

/// Whatever stands behind `--` reaches cargo unchanged, and does not change what the arguments in
/// front of it mean.
pub proof fn law_arguments_behind_the_separator_are_untouched(
    front: Seq<Seq<char>>,
    behind: Seq<Seq<char>>,
    options: OptionsView,
    rest: Seq<Seq<char>>,
)
    requires
        forall|i: int| 0 <= i < front.len() ==> #[trigger] front[i] != "--"@,
        split_from(front, options, rest) is Ok,
    ensures
        split_from(front + seq!["--"@] + behind, options, rest) == Ok::<
            (OptionsView, Seq<Seq<char>>),
            Seq<char>,
        >(
            (
                split_from(front, options, rest)->Ok_0.0,
                split_from(front, options, rest)->Ok_0.1 + seq!["--"@] + behind,
            ),
        ),
    decreases front.len(),
{
    let tail = seq!["--"@] + behind;
    let all = front + seq!["--"@] + behind;
    if front.len() == 0 {
        assert(all =~= tail);
        assert(all[0] == "--"@);
        assert(rest + all =~= rest + seq!["--"@] + behind);
    } else {
        assert(all[0] == front[0]);
        let one = front.skip(1);
        assert(all.skip(1) =~= one + seq!["--"@] + behind);
        assert forall|i: int| 0 <= i < one.len() implies #[trigger] one[i] != "--"@ by {
            assert(one[i] == front[i + 1]);
        }
        if front[0] == "--no-inline-flags"@ {
            law_arguments_behind_the_separator_are_untouched(
                one,
                behind,
                OptionsView { no_inline_flags: true, ..options },
                rest,
            );
        } else if let Some(option) = option_named(front[0]) {
            let two = front.skip(2);
            assert(all[1] == front[1]);
            assert(all.skip(2) =~= two + seq!["--"@] + behind);
            assert forall|i: int| 0 <= i < two.len() implies #[trigger] two[i] != "--"@ by {
                assert(two[i] == front[i + 2]);
            }
            if let Ok(more) = with_option(options, option, front[1]) {
                law_arguments_behind_the_separator_are_untouched(two, behind, more, rest);
            }
        } else if let Some((option, value)) = option_assigned(front[0]) {
            if let Ok(more) = with_option(options, option, value) {
                law_arguments_behind_the_separator_are_untouched(one, behind, more, rest);
            }
        } else {
            law_arguments_behind_the_separator_are_untouched(
                one,
                behind,
                options,
                rest.push(front[0]),
            );
        }
    }
}

} // verus!
