//! Laws of the flags: which compiler and which variable gets which.

use crate::ambient::{ambient_rustflags_of, encoded_flags, law_encoded_flags_are_read_back};
use crate::build_env::flags::{cflags_of, flags_are, Flags};
use crate::laws::text::law_words_are_read_back;
use crate::path::{joined_path, posix_of, Platform};
use crate::sdk::Sdk;
use crate::shell::{resolved, shown};
use crate::target::{extra_cflags_of, Arch, Target};
use crate::text::{has_class, texts, words, Class};
use vstd::prelude::*;

verus! {

/// Rustc links with the flags the linker has and those C code is compiled with: each is among the flags
/// for rustc, behind what makes it one for the linker, in the same order, and nothing else is.
pub proof fn law_rustc_links_as_c_is_compiled(
    platform: Platform,
    sdk: Sdk,
    target: Target,
    flags: Flags,
)
    requires
        flags_are(platform, sdk, target, flags),
    ensures
        flags.rustflags@.len() == flags.ldflags@.len() + flags.cflags@.len(),
        forall|i: int|
            0 <= i < flags.ldflags@.len() ==> (#[trigger] flags.rustflags@[i])@ == "-Clink-arg="@
                + flags.ldflags@[i]@,
        forall|i: int|
            0 <= i < flags.cflags@.len() ==> flags.rustflags@[flags.ldflags@.len() + i]@
                == "-Clink-arg="@ + (#[trigger] flags.cflags@[i])@,
{
    let all = texts(flags.rustflags@);
    let ld = texts(flags.ldflags@);
    let c = texts(flags.cflags@);
    assert(all.len() == ld.len() + c.len());
    assert forall|i: int| 0 <= i < flags.ldflags@.len() implies (
    #[trigger] flags.rustflags@[i])@ == "-Clink-arg="@ + flags.ldflags@[i]@ by {
        assert(all[i] == flags.rustflags@[i]@);
        assert(ld[i] == flags.ldflags@[i]@);
        assert((ld + c)[i] == ld[i]);
    }
    assert forall|i: int| 0 <= i < flags.cflags@.len() implies flags.rustflags@[flags.ldflags@.len()
        + i]@ == "-Clink-arg="@ + (#[trigger] flags.cflags@[i])@ by {
        let k = flags.ldflags@.len() + i;
        assert(all[k] == flags.rustflags@[k]@);
        assert(c[i] == flags.cflags@[i]@);
        assert((ld + c)[k] == c[i]);
    }
}

/// C and C++ code is compiled for the target against the sysroot of the SDK: one flag names the target
/// as clang does, one the sysroot, one says which C library that has, and the rest are those of the
/// architecture.
pub proof fn law_code_is_compiled_for_the_target(
    platform: Platform,
    sdk: Sdk,
    target: Target,
    flags: Flags,
)
    requires
        flags_are(platform, sdk, target, flags),
    ensures
        texts(flags.cflags@).contains("--target="@ + target.clang_triple@),
        texts(flags.cflags@).contains("--sysroot="@ + posix_of(sdk.sysroot@)),
        texts(flags.cflags@).contains("-D__MUSL__"@),
        target.arch != Arch::Armv7 ==> flags.cflags@.len() == 3,
        target.arch == Arch::Armv7 ==> flags.cflags@.len() == 7 && texts(flags.cflags@).contains(
            "-march=armv7-a"@,
        ) && texts(flags.cflags@).contains("-mfloat-abi=softfp"@) && texts(flags.cflags@).contains(
            "-mtune=generic-armv7-a"@,
        ) && texts(flags.cflags@).contains("-mthumb"@),
        texts(flags.cxxflags@) == texts(flags.cflags@),
{
    let c = texts(flags.cflags@);
    let extra = extra_cflags_of(target.arch);
    assert(c[0] == "--target="@ + target.clang_triple@);
    assert(c[1] == "--sysroot="@ + posix_of(sdk.sysroot@));
    assert(c[2] == "-D__MUSL__"@);
    assert(c.len() == flags.cflags@.len());
    if target.arch == Arch::Armv7 {
        assert(c[3] == extra[0] && c[4] == extra[1] && c[5] == extra[2] && c[6] == extra[3]);
    }
}

proof fn lemma_one_sysroot(sdk: Sdk, target: Target, i: int)
    requires
        0 <= i < cflags_of(sdk, target).len(),
        "--sysroot="@.is_prefix_of(cflags_of(sdk, target)[i]),
    ensures
        cflags_of(sdk, target)[i] == "--sysroot="@ + posix_of(sdk.sysroot@),
{
    reveal_strlit("--sysroot=");
    reveal_strlit("--target=");
    reveal_strlit("-D__MUSL__");
    reveal_strlit("-march=armv7-a");
    reveal_strlit("-mfloat-abi=softfp");
    reveal_strlit("-mtune=generic-armv7-a");
    reveal_strlit("-mthumb");
    let c = cflags_of(sdk, target);
    let extra = extra_cflags_of(target.arch);
    assert(c[i][1] == "--sysroot="@[1] && c[i][2] == "--sysroot="@[2]);
    if i == 0 {
        assert(c[i][2] == 't');
    } else if i > 2 {
        assert(c[i] == extra[i - 3]);
        assert(extra[i - 3][1] == 'm');
    }
}

/// No flag sends the linker to another sysroot than that of the SDK, nor a compiler.
pub proof fn law_there_is_one_sysroot(
    platform: Platform,
    sdk: Sdk,
    target: Target,
    flags: Flags,
    i: int,
)
    requires
        flags_are(platform, sdk, target, flags),
    ensures
        0 <= i < flags.rustflags@.len() && "-Clink-arg=--sysroot="@.is_prefix_of(
            flags.rustflags@[i]@,
        ) ==> flags.rustflags@[i]@ == "-Clink-arg=--sysroot="@ + posix_of(sdk.sysroot@),
        0 <= i < flags.cflags@.len() && "--sysroot="@.is_prefix_of(flags.cflags@[i]@)
            ==> flags.cflags@[i]@ == "--sysroot="@ + posix_of(sdk.sysroot@),
{
    let c = texts(flags.cflags@);
    let ld = texts(flags.ldflags@);
    if 0 <= i < flags.cflags@.len() && "--sysroot="@.is_prefix_of(flags.cflags@[i]@) {
        assert(c[i] == flags.cflags@[i]@);
        lemma_one_sysroot(sdk, target, i);
    }
    if 0 <= i < flags.rustflags@.len() && "-Clink-arg=--sysroot="@.is_prefix_of(
        flags.rustflags@[i]@,
    ) {
        law_rustc_links_as_c_is_compiled(platform, sdk, target, flags);
        assert(ld.len() == 2);
        let flag = if i < 2 {
            ld[i]
        } else {
            c[i - 2]
        };
        let whole = flags.rustflags@[i]@;
        assert(whole == "-Clink-arg="@ + flag) by {
            if i < 2 {
                assert(ld[i] == flags.ldflags@[i]@);
            } else {
                assert(c[i - 2] == flags.cflags@[i - 2]@);
            }
        }
        lemma_behind_the_prefix(flag, whole);
        if i < 2 {
            reveal_strlit("-fuse-ld=lld");
            reveal_strlit("-Wl,--build-id");
            reveal_strlit("--sysroot=");
            assert(flag[1] == "--sysroot="@[1]);
            assert(false);
        } else {
            lemma_one_sysroot(sdk, target, i - 2);
            lemma_prefixes_join(posix_of(sdk.sysroot@));
        }
    }
}

proof fn lemma_behind_the_prefix(flag: Seq<char>, whole: Seq<char>)
    requires
        whole == "-Clink-arg="@ + flag,
        "-Clink-arg=--sysroot="@.is_prefix_of(whole),
    ensures
        "--sysroot="@.is_prefix_of(flag),
{
    reveal_strlit("-Clink-arg=--sysroot=");
    reveal_strlit("-Clink-arg=");
    reveal_strlit("--sysroot=");
    assert("-Clink-arg=--sysroot="@ =~= "-Clink-arg="@ + "--sysroot="@);
    assert forall|k: int| 0 <= k < "--sysroot="@.len() implies "--sysroot="@[k] == flag[k] by {
        assert(whole[k + 11] == "-Clink-arg=--sysroot="@[k + 11]);
    }
    assert("--sysroot="@ =~= flag.take("--sysroot="@.len() as int));
}

proof fn lemma_prefixes_join(path: Seq<char>)
    ensures
        "-Clink-arg=--sysroot="@ + path == "-Clink-arg="@ + ("--sysroot="@ + path),
{
    reveal_strlit("-Clink-arg=--sysroot=");
    reveal_strlit("-Clink-arg=");
    reveal_strlit("--sysroot=");
    assert("-Clink-arg=--sysroot="@ =~= "-Clink-arg="@ + "--sysroot="@);
    assert("-Clink-arg=--sysroot="@ + path =~= "-Clink-arg="@ + ("--sysroot="@ + path));
}

/// The linker is LLVM's, and what it links is given an identifier.
pub proof fn law_the_linker_is_lld(platform: Platform, sdk: Sdk, target: Target, flags: Flags)
    requires
        flags_are(platform, sdk, target, flags),
    ensures
        flags.ldflags@.len() == 2,
        texts(flags.ldflags@).contains("-fuse-ld=lld"@),
        texts(flags.ldflags@).contains("-Wl,--build-id"@),
{
    let ld = texts(flags.ldflags@);
    assert(ld.len() == flags.ldflags@.len());
    assert(ld[0] == "-fuse-ld=lld"@ && ld[1] == "-Wl,--build-id"@);
}

/// Bindgen reads headers as C++ code is compiled, and finds those of the target below the sysroot.
pub proof fn law_bindgen_reads_headers_as_code_is_compiled(
    platform: Platform,
    sdk: Sdk,
    target: Target,
    flags: Flags,
)
    requires
        flags_are(platform, sdk, target, flags),
    ensures
        ({
            let headers = joined_path(
                platform,
                joined_path(platform, joined_path(platform, sdk.sysroot@, "usr"@), "include"@),
                target.lib_dir@,
            );
            texts(flags.bindgen@) == texts(flags.cxxflags@) + seq!["-I"@ + posix_of(headers)]
        }),
{
}

/// When only the plain variable is set, the user's flags are its words: each set of words that was
/// written with a space between each two of them is read back.
pub proof fn law_plain_flags_are_read_back(
    ambient: Map<Seq<char>, Seq<char>>,
    flags: Seq<Seq<char>>,
)
    requires
        !ambient.contains_key("CARGO_ENCODED_RUSTFLAGS"@),
        forall|i: int|
            0 <= i < flags.len() ==> (#[trigger] flags[i]).len() > 0 && !has_class(
                flags[i],
                Class::Whitespace,
            ),
    ensures
        ambient_rustflags_of(
            ambient.insert("RUSTFLAGS"@, crate::text::joined(flags, " "@)),
        ) == flags,
{
    reveal_strlit("RUSTFLAGS");
    reveal_strlit("CARGO_ENCODED_RUSTFLAGS");
    assert("RUSTFLAGS"@.len() == 9 && "CARGO_ENCODED_RUSTFLAGS"@.len() == 23);
    law_words_are_read_back(flags);
}

/// When only the plain variable is set, no flag of the user is empty or holds whitespace, and together
/// the flags are what the variable holds but for its whitespace.
pub proof fn law_plain_flags_hold_no_whitespace(ambient: Map<Seq<char>, Seq<char>>)
    requires
        !ambient.contains_key("CARGO_ENCODED_RUSTFLAGS"@),
        ambient.contains_key("RUSTFLAGS"@),
    ensures
        forall|i: int|
            0 <= i < ambient_rustflags_of(ambient).len() ==> (#[trigger] ambient_rustflags_of(
                ambient,
            )[i]).len() > 0 && !has_class(ambient_rustflags_of(ambient)[i], Class::Whitespace),
        crate::text::joined(ambient_rustflags_of(ambient), seq![]) == ambient["RUSTFLAGS"@].filter(
            |c: char| !crate::text::in_class(Class::Whitespace, c),
        ),
{
    crate::laws::text::law_words_are_the_text(ambient["RUSTFLAGS"@]);
}

/// The encoded variable is read instead of the plain one, not along with it; with neither the user has
/// no flags. The encoded variable may hold flags with whitespace in them.
pub proof fn law_encoded_flags_come_first(
    ambient: Map<Seq<char>, Seq<char>>,
    plain: Seq<char>,
    flags: Seq<Seq<char>>,
)
    requires
        forall|i: int|
            0 <= i < flags.len() ==> (#[trigger] flags[i]).len() > 0 && !has_class(
                flags[i],
                Class::Is('\u{1f}'),
            ),
    ensures
        ambient_rustflags_of(
            ambient.insert("RUSTFLAGS"@, plain).insert(
                "CARGO_ENCODED_RUSTFLAGS"@,
                crate::text::joined(flags, "\u{1f}"@),
            ),
        ) == flags,
        !ambient.contains_key("RUSTFLAGS"@) && !ambient.contains_key("CARGO_ENCODED_RUSTFLAGS"@)
            ==> ambient_rustflags_of(ambient).len() == 0,
{
    law_encoded_flags_are_read_back(flags);
}

/// What a shell or cargo is given as flags for rustc is read back as these flags: the plain variable as
/// long as none of them is empty or holds whitespace, the encoded one as long as none is empty or holds
/// its separator.
pub proof fn law_given_flags_are_read_back(
    env: Map<Seq<char>, Seq<char>>,
    rustflags: Seq<Seq<char>>,
)
    ensures
        (forall|i: int|
            0 <= i < rustflags.len() ==> (#[trigger] rustflags[i]).len() > 0 && !has_class(
                rustflags[i],
                Class::Whitespace,
            )) ==> {
            &&& shown(env, rustflags).contains_key("RUSTFLAGS"@)
            &&& words(shown(env, rustflags)["RUSTFLAGS"@]) == rustflags
        },
        (forall|i: int|
            0 <= i < rustflags.len() ==> (#[trigger] rustflags[i]).len() > 0 && !has_class(
                rustflags[i],
                Class::Is('\u{1f}'),
            )) ==> {
            &&& resolved(env, rustflags).contains_key("CARGO_ENCODED_RUSTFLAGS"@)
            &&& encoded_flags(resolved(env, rustflags)["CARGO_ENCODED_RUSTFLAGS"@]) == rustflags
        },
{
    if forall|i: int|
        0 <= i < rustflags.len() ==> (#[trigger] rustflags[i]).len() > 0 && !has_class(
            rustflags[i],
            Class::Whitespace,
        ) {
        law_words_are_read_back(rustflags);
    }
    if forall|i: int|
        0 <= i < rustflags.len() ==> (#[trigger] rustflags[i]).len() > 0 && !has_class(
            rustflags[i],
            Class::Is('\u{1f}'),
        ) {
        law_encoded_flags_are_read_back(rustflags);
    }
}

} // verus!
