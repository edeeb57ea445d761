//! Laws of the command line: which arguments are the tool's own, and what the others become.

use crate::args::{
    is_own, law_foreign_arguments_pass_through, no_options, option_named, split_from,
    CliOptions, OptionsView,
};
use crate::text::parsed_u32;
use vstd::prelude::*;

verus! {

/// Whether an argument takes the next one as its value.
pub open spec fn takes_the_next(arg: Seq<char>) -> bool {
    ||| arg == "-t"@
    ||| arg == "--target"@
    ||| arg == "--sdk"@
    ||| arg == "--llvm"@
    ||| arg == "--download-prebuilt"@
    ||| arg == "--min-api"@
}

/// Whether an argument is one of the tool's own, all of them written out.
pub open spec fn is_the_tools(arg: Seq<char>) -> bool {
    ||| takes_the_next(arg)
    ||| arg == "--no-inline-flags"@
    ||| "--target="@.is_prefix_of(arg)
    ||| "--download-prebuilt="@.is_prefix_of(arg)
    ||| "--min-api="@.is_prefix_of(arg)
}

/// The tool's own options are these and no others.
pub proof fn law_the_tools_options(arg: Seq<char>)
    ensures
        is_own(arg) <==> is_the_tools(arg),
        option_named(arg) is Some <==> takes_the_next(arg),
{
}

/// Arguments that are none of the tool's own reach cargo unchanged, in order and all of them, and
/// change no option.
pub proof fn law_other_arguments_reach_cargo(
    args: Seq<Seq<char>>,
    options: OptionsView,
    rest: Seq<Seq<char>>,
)
    requires
        forall|i: int| 0 <= i < args.len() ==> !is_the_tools(#[trigger] args[i]),
    ensures
        split_from(args, options, rest) == Ok::<(OptionsView, Seq<Seq<char>>), Seq<char>>(
            (options, rest + args),
        ),
{
    assert forall|i: int| 0 <= i < args.len() implies !is_own(#[trigger] args[i]) by {
        law_the_tools_options(args[i]);
        assert(!is_the_tools(args[i]));
    }
    law_foreign_arguments_pass_through(args, options, rest);
}

/// An option and its value go together into the option's own field, and the arguments behind them are
/// read as if they were not there.
pub proof fn law_options_take_their_values(
    value: Seq<char>,
    more: Seq<Seq<char>>,
    options: OptionsView,
    rest: Seq<Seq<char>>,
)
    ensures
        split_from(seq!["-t"@, value] + more, options, rest) == split_from(
            more,
            OptionsView { target: Some(value), ..options },
            rest,
        ),
        split_from(seq!["--target"@, value] + more, options, rest) == split_from(
            more,
            OptionsView { target: Some(value), ..options },
            rest,
        ),
        split_from(seq!["--sdk"@, value] + more, options, rest) == split_from(
            more,
            OptionsView { sdk: Some(value), ..options },
            rest,
        ),
        split_from(seq!["--llvm"@, value] + more, options, rest) == split_from(
            more,
            OptionsView { llvm: Some(value), ..options },
            rest,
        ),
        split_from(seq!["--download-prebuilt"@, value] + more, options, rest) == split_from(
            more,
            OptionsView { download_prebuilt: Some(value), ..options },
            rest,
        ),
        parsed_u32(value) matches Some(level) ==> split_from(
            seq!["--min-api"@, value] + more,
            options,
            rest,
        ) == split_from(more, OptionsView { min_api: Some(level), ..options }, rest),
        parsed_u32(value) is None ==> split_from(seq!["--min-api"@, value] + more, options, rest) is Err,
        split_from(seq!["--no-inline-flags"@] + more, options, rest) == split_from(
            more,
            OptionsView { no_inline_flags: true, ..options },
            rest,
        ),
{
    lemma_options_differ();
    assert forall|name: Seq<char>| #[trigger] takes_the_next(name) implies (seq![name, value]
        + more)[0] == name && (seq![name, value] + more)[1] == value && (seq![name, value]
        + more).skip(2) == more by {
        assert((seq![name, value] + more).skip(2) =~= more);
    }
    assert(takes_the_next("-t"@) && takes_the_next("--target"@) && takes_the_next("--sdk"@)
        && takes_the_next("--llvm"@) && takes_the_next("--download-prebuilt"@) && takes_the_next(
        "--min-api"@,
    ));
    assert((seq!["--no-inline-flags"@] + more).skip(1) =~= more);
}

proof fn lemma_options_differ()
    ensures
        "-t"@ != "--"@,
        "--target"@ != "--"@,
        "--sdk"@ != "--"@,
        "--llvm"@ != "--"@,
        "--download-prebuilt"@ != "--"@,
        "--min-api"@ != "--"@,
        "--no-inline-flags"@ != "--"@,
        "--no-inline-flags"@ != "-t"@,
        "--no-inline-flags"@ != "--target"@,
        "--no-inline-flags"@ != "--sdk"@,
        "--no-inline-flags"@ != "--llvm"@,
        "--no-inline-flags"@ != "--download-prebuilt"@,
        "--no-inline-flags"@ != "--min-api"@,
        "--sdk"@ != "-t"@,
        "--sdk"@ != "--target"@,
        "--llvm"@ != "-t"@,
        "--llvm"@ != "--target"@,
        "--llvm"@ != "--sdk"@,
        "--download-prebuilt"@ != "-t"@,
        "--download-prebuilt"@ != "--target"@,
        "--download-prebuilt"@ != "--sdk"@,
        "--download-prebuilt"@ != "--llvm"@,
        "--min-api"@ != "-t"@,
        "--min-api"@ != "--target"@,
        "--min-api"@ != "--sdk"@,
        "--min-api"@ != "--llvm"@,
        "--min-api"@ != "--download-prebuilt"@,
{
    reveal_strlit("--");
    reveal_strlit("-t");
    reveal_strlit("--target");
    reveal_strlit("--sdk");
    reveal_strlit("--llvm");
    reveal_strlit("--download-prebuilt");
    reveal_strlit("--min-api");
    reveal_strlit("--no-inline-flags");
    assert("--"@.len() == 2 && "-t"@.len() == 2 && "--target"@.len() == 8 && "--sdk"@.len() == 5
        && "--llvm"@.len() == 6 && "--download-prebuilt"@.len() == 19 && "--min-api"@.len() == 9
        && "--no-inline-flags"@.len() == 17);
    assert("--"@[1] == '-' && "-t"@[1] == 't');
}

proof fn lemma_assigned_is_not_named(arg: Seq<char>)
    requires
        "--target="@.is_prefix_of(arg) || "--download-prebuilt="@.is_prefix_of(arg)
            || "--min-api="@.is_prefix_of(arg),
    ensures
        arg != "--"@,
        arg != "--no-inline-flags"@,
        option_named(arg) is None,
        "--download-prebuilt="@.is_prefix_of(arg) ==> !"--target="@.is_prefix_of(arg),
        "--min-api="@.is_prefix_of(arg) ==> !"--target="@.is_prefix_of(arg)
            && !"--download-prebuilt="@.is_prefix_of(arg),
{
    reveal_strlit("--");
    reveal_strlit("-t");
    reveal_strlit("--target");
    reveal_strlit("--sdk");
    reveal_strlit("--llvm");
    reveal_strlit("--download-prebuilt");
    reveal_strlit("--min-api");
    reveal_strlit("--no-inline-flags");
    reveal_strlit("--target=");
    reveal_strlit("--download-prebuilt=");
    reveal_strlit("--min-api=");
    if "--target="@.is_prefix_of(arg) {
        assert(arg.len() >= 9 && arg[2] == "--target="@[2] && arg[8] == "--target="@[8]);
    }
    if "--download-prebuilt="@.is_prefix_of(arg) {
        assert(arg.len() >= 20 && arg[2] == "--download-prebuilt="@[2]);
    }
    if "--min-api="@.is_prefix_of(arg) {
        assert(arg.len() >= 10 && arg[2] == "--min-api="@[2] && arg[9] == "--min-api="@[9]);
    }
    assert("--no-inline-flags"@[2] == 'n');
    assert("--no-inline-flags"@.len() == 17);
}

/// A value may also stand behind `=` in the argument that names its option.
pub proof fn law_options_take_assigned_values(
    value: Seq<char>,
    more: Seq<Seq<char>>,
    options: OptionsView,
    rest: Seq<Seq<char>>,
)
    ensures
        split_from(seq!["--target="@ + value] + more, options, rest) == split_from(
            more,
            OptionsView { target: Some(value), ..options },
            rest,
        ),
        split_from(seq!["--download-prebuilt="@ + value] + more, options, rest) == split_from(
            more,
            OptionsView { download_prebuilt: Some(value), ..options },
            rest,
        ),
        parsed_u32(value) matches Some(level) ==> split_from(
            seq!["--min-api="@ + value] + more,
            options,
            rest,
        ) == split_from(more, OptionsView { min_api: Some(level), ..options }, rest),
        parsed_u32(value) is None ==> split_from(seq!["--min-api="@ + value] + more, options, rest) is Err,
{
    let a = "--target="@ + value;
    let b = "--download-prebuilt="@ + value;
    let c = "--min-api="@ + value;
    assert("--target="@.is_prefix_of(a));
    assert("--download-prebuilt="@.is_prefix_of(b));
    assert("--min-api="@.is_prefix_of(c));
    lemma_assigned_is_not_named(a);
    lemma_assigned_is_not_named(b);
    lemma_assigned_is_not_named(c);
    assert(a.skip("--target="@.len() as int) =~= value);
    assert(b.skip("--download-prebuilt="@.len() as int) =~= value);
    assert(c.skip("--min-api="@.len() as int) =~= value);
    assert((seq![a] + more).skip(1) =~= more);
    assert((seq![b] + more).skip(1) =~= more);
    assert((seq![c] + more).skip(1) =~= more);
}

/// An option that takes the next argument is an error where there is none.
pub proof fn law_values_are_not_optional(
    name: Seq<char>,
    options: OptionsView,
    rest: Seq<Seq<char>>,
)
    requires
        takes_the_next(name),
    ensures
        split_from(seq![name], options, rest) is Err,
{
    lemma_options_differ();
}

/// At first no option is given.
pub proof fn law_no_option_is_given_at_first()
    ensures
        no_options().target is None,
        no_options().sdk is None,
        no_options().llvm is None,
        no_options().download_prebuilt is None,
        !no_options().no_inline_flags,
        no_options().min_api is None,
{
}

/// What is said of a set of options is what its fields hold, each of its own.
pub proof fn law_options_say_what_they_hold(options: CliOptions)
    ensures
        options.target matches Some(text) ==> options@.target == Some(text@),
        options.target is None ==> options@.target is None,
        options.sdk matches Some(text) ==> options@.sdk == Some(text@),
        options.sdk is None ==> options@.sdk is None,
        options.llvm matches Some(text) ==> options@.llvm == Some(text@),
        options.llvm is None ==> options@.llvm is None,
        options.download_prebuilt matches Some(text) ==> options@.download_prebuilt == Some(text@),
        options.download_prebuilt is None ==> options@.download_prebuilt is None,
        options@.no_inline_flags == options.no_inline_flags,
        options@.min_api == options.min_api,
{
}

} // verus!
