//! Laws of the environment a build is given.

use crate::build_env::cmake::toolchain_file_text;
use crate::build_env::environment::{
    first_spaced, lemma_tags, listable, path_list_of, pkg_config_paths,
};
use crate::build_env::flags::{flags_are, Flags};
use crate::build_env::{
    derive_step, env_of, law_flags_travel_once, map_step, maps_to, Config, DeriveStep, Error,
    MapStep,
};
use crate::laws::text::{law_replacing_a_character, law_words_are_read_back};
use crate::path::{joined_path, posix_of, program_of, Platform};
use crate::sdk::Sdk;
use crate::target::{abi_of, Target};
use crate::text::{decimal, has_class, in_class, joined, texts, words, Class};
use crate::toolchain::{resolve_is, Found, Toolchain};
use vstd::prelude::*;

verus! {

/// Every tool of the toolchain that a build asks for by a variable is the one that variable is named
/// after.
pub proof fn law_the_environment_names_the_tools(
    platform: Platform,
    inline: bool,
    sdk: Sdk,
    target: Target,
    toolchain: Toolchain,
    cflags: Seq<Seq<char>>,
    cxxflags: Seq<Seq<char>>,
    bindgen: Seq<Seq<char>>,
    use_ninja: bool,
    toolchain_file: Option<Seq<char>>,
)
    ensures
        ({
            let env = env_of(
                platform,
                inline,
                sdk,
                target,
                toolchain,
                cflags,
                cxxflags,
                bindgen,
                use_ninja,
                toolchain_file,
            );
            let rust_u = target.rust_underscored();
            &&& maps_to(env, "TARGET_AR"@, posix_of(toolchain.ar@))
            &&& maps_to(env, "TARGET_RANLIB"@, posix_of(toolchain.ranlib@))
            &&& maps_to(env, "TARGET_STRIP"@, posix_of(toolchain.strip@))
            &&& maps_to(env, "TARGET_OBJCOPY"@, posix_of(toolchain.objcopy@))
            &&& maps_to(env, "TARGET_READELF"@, posix_of(toolchain.readelf@))
            &&& maps_to(env, "LIBCLANG_PATH"@, posix_of(toolchain.libclang_dir@))
            &&& maps_to(env, "BINDGEN_EXTRA_CLANG_ARGS_"@ + rust_u, joined(bindgen, " "@))
            &&& maps_to(env, "CXXSTDLIB_"@ + rust_u, "c++"@)
            &&& use_ninja ==> maps_to(env, "CMAKE_GENERATOR_"@ + rust_u, "Ninja"@)
            &&& env.contains_key("HOST_CC"@) == (platform == Platform::Macos)
            &&& env.contains_key("HOST_CXX"@) == (platform == Platform::Macos)
            &&& platform == Platform::Macos ==> env["HOST_CC"@] == "/usr/bin/cc"@ && env["HOST_CXX"@]
                == "/usr/bin/c++"@
        }),
{
    lemma_tags(target);
}

/// A build is told which SDK it is built with, and finds packages below its sysroot only.
pub proof fn law_the_environment_names_the_sysroot(
    platform: Platform,
    inline: bool,
    sdk: Sdk,
    target: Target,
    toolchain: Toolchain,
    cflags: Seq<Seq<char>>,
    cxxflags: Seq<Seq<char>>,
    bindgen: Seq<Seq<char>>,
    use_ninja: bool,
    toolchain_file: Option<Seq<char>>,
)
    ensures
        ({
            let env = env_of(
                platform,
                inline,
                sdk,
                target,
                toolchain,
                cflags,
                cxxflags,
                bindgen,
                use_ninja,
                toolchain_file,
            );
            let rust_u = target.rust_underscored();
            let usr = joined_path(platform, sdk.sysroot@, "usr"@);
            &&& maps_to(env, "CARGO_OHOS_SYSROOT"@, posix_of(sdk.sysroot@))
            &&& maps_to(env, "PKG_CONFIG_SYSROOT_DIR_"@ + rust_u, posix_of(sdk.sysroot@))
            &&& maps_to(env, "OHOS_SDK_NATIVE"@, posix_of(sdk.native_root@))
            &&& maps_to(env, "CARGO_OHOS_SDK_NATIVE"@, posix_of(sdk.native_root@))
            &&& maps_to(env, "CARGO_OHOS_CLANG_TRIPLE"@, target.clang_triple@)
            &&& sdk.api_version matches Some(api) ==> maps_to(
                env,
                "CARGO_OHOS_API_LEVEL"@,
                decimal(api as nat),
            )
            &&& maps_to(
                env,
                "PKG_CONFIG_PATH_"@ + rust_u,
                path_list_of(
                    platform,
                    seq![
                        joined_path(platform, joined_path(platform, usr, "lib"@), "pkgconfig"@),
                        joined_path(platform, joined_path(platform, usr, "share"@), "pkgconfig"@),
                    ],
                ),
            )
        }),
{
    lemma_tags(target);
}

/// The names a build's environment may set for a target.
pub open spec fn is_set_for(name: Seq<char>, target: Target) -> bool {
    let rust = target.rust_triple@;
    let rust_u = target.rust_underscored();
    ||| name == "CC_"@ + rust
    ||| name == "CC_"@ + rust_u
    ||| name == "CXX_"@ + rust
    ||| name == "CXX_"@ + rust_u
    ||| name == "HOST_CC"@
    ||| name == "HOST_CXX"@
    ||| name == "CXXSTDLIB_"@ + rust_u
    ||| name == "TARGET_AR"@
    ||| name == "TARGET_RANLIB"@
    ||| name == "TARGET_STRIP"@
    ||| name == "TARGET_OBJCOPY"@
    ||| name == "TARGET_READELF"@
    ||| name == "TARGET_CFLAGS"@
    ||| name == "TARGET_CXXFLAGS"@
    ||| name == "TARGET_CPPFLAGS"@
    ||| name == "CARGO_TARGET_"@ + target.rust_upper() + "_LINKER"@
    ||| name == "BINDGEN_EXTRA_CLANG_ARGS_"@ + rust_u
    ||| name == "LIBCLANG_PATH"@
    ||| name == "CLANG_PATH"@
    ||| name == "CMAKE"@
    ||| name == "CMAKE_GENERATOR_"@ + rust_u
    ||| name == "CMAKE_C_COMPILER_"@ + rust_u
    ||| name == "CMAKE_CXX_COMPILER_"@ + rust_u
    ||| name == "CMAKE_TOOLCHAIN_FILE_"@ + rust_u
    ||| name == "PKG_CONFIG_SYSROOT_DIR_"@ + rust_u
    ||| name == "PKG_CONFIG_PATH_"@ + rust_u
    ||| name == "OHOS_SDK_NATIVE"@
    ||| name == "CARGO_OHOS_SDK_NATIVE"@
    ||| name == "CARGO_OHOS_API_LEVEL"@
    ||| name == "CARGO_OHOS_SYSROOT"@
    ||| name == "CARGO_OHOS_CLANG_TRIPLE"@
}

/// No other variable is set.
pub proof fn law_the_environment_sets_nothing_else(
    platform: Platform,
    inline: bool,
    sdk: Sdk,
    target: Target,
    toolchain: Toolchain,
    cflags: Seq<Seq<char>>,
    cxxflags: Seq<Seq<char>>,
    bindgen: Seq<Seq<char>>,
    use_ninja: bool,
    toolchain_file: Option<Seq<char>>,
    name: Seq<char>,
)
    requires
        env_of(
            platform,
            inline,
            sdk,
            target,
            toolchain,
            cflags,
            cxxflags,
            bindgen,
            use_ninja,
            toolchain_file,
        ).contains_key(name),
    ensures
        is_set_for(name, target),
{
}

/// Build tools read paths with forward slashes: each backslash is one, and nothing else changes.
pub proof fn law_build_tools_read_forward_slashes(path: Seq<char>)
    ensures
        posix_of(path).len() == path.len(),
        forall|i: int|
            0 <= i < path.len() ==> #[trigger] posix_of(path)[i] == if path[i] == '\\' {
                '/'
            } else {
                path[i]
            },
{
    reveal_strlit("/");
    assert("/"@ =~= seq!['/']);
    law_replacing_a_character(path, '\\', '/');
}

/// A list of paths is written with the separator of the platform, `;` on Windows and `:` elsewhere: it
/// is not written if it could not be read back, and one that is written has the paths between the
/// separators, with forward slashes.
pub proof fn law_lists_of_paths(platform: Platform, first: Seq<char>, second: Seq<char>)
    requires
        !has_class(first, Class::Is(if platform == Platform::Windows {
            ';'
        } else {
            ':'
        })),
        !has_class(second, Class::Is(if platform == Platform::Windows {
            ';'
        } else {
            ':'
        })),
    ensures
        path_list_of(platform, seq![first, second]) == posix_of(first) + seq![
            if platform == Platform::Windows {
                ';'
            } else {
                ':'
            },
        ] + posix_of(second),
        path_list_of(platform, seq![first]) == posix_of(first),
{
    let c = if platform == Platform::Windows {
        ';'
    } else {
        ':'
    };
    let both = seq![first, second];
    let listed = crate::build_env::environment::listed_paths(platform, both);
    assert(listed =~= both);
    assert(crate::build_env::environment::listed_paths(platform, seq![first]) =~= seq![first]);
    reveal_with_fuel(joined, 3);
    assert(both.drop_last() =~= seq![first]);
    let whole = first + seq![c] + second;
    assert(joined(both, seq![c]) =~= whole);
    law_build_tools_read_forward_slashes(whole);
    law_build_tools_read_forward_slashes(first);
    law_build_tools_read_forward_slashes(second);
    assert(posix_of(whole) =~= posix_of(first) + seq![c] + posix_of(second));
}

/// The values of the compilers: just the program, or the program and its flags, followed by what keeps
/// it quiet about those it does not use, with a space between each two of them.
pub proof fn law_compilers_carry_their_flags(
    platform: Platform,
    inline: bool,
    sdk: Sdk,
    target: Target,
    toolchain: Toolchain,
    cflags: Seq<Seq<char>>,
    cxxflags: Seq<Seq<char>>,
    bindgen: Seq<Seq<char>>,
    use_ninja: bool,
    toolchain_file: Option<Seq<char>>,
)
    ensures
        ({
            let env = env_of(
                platform,
                inline,
                sdk,
                target,
                toolchain,
                cflags,
                cxxflags,
                bindgen,
                use_ninja,
                toolchain_file,
            );
            let rust_u = target.rust_underscored();
            let quiet = seq!["-Wno-unused-command-line-argument"@];
            let cc = posix_of(toolchain.clang@);
            let cxx = posix_of(toolchain.clangxx@);
            &&& inline ==> maps_to(env, "CC_"@ + rust_u, joined(seq![cc] + cflags + quiet, " "@))
            &&& inline ==> maps_to(env, "CXX_"@ + rust_u, joined(seq![cxx] + cxxflags + quiet, " "@))
            &&& !inline ==> maps_to(env, "CC_"@ + rust_u, cc)
            &&& !inline ==> maps_to(env, "CXX_"@ + rust_u, cxx)
        }),
{
    law_flags_travel_once(
        platform,
        inline,
        sdk,
        target,
        toolchain,
        cflags,
        cxxflags,
        bindgen,
        use_ninja,
        toolchain_file,
    );
    let quiet = seq!["-Wno-unused-command-line-argument"@];
    assert(crate::build_env::environment::inline_parts(posix_of(toolchain.clang@), cflags) =~= seq![
        posix_of(toolchain.clang@),
    ] + cflags + quiet);
    assert(crate::build_env::environment::inline_parts(posix_of(toolchain.clangxx@), cxxflags) =~= seq![
        posix_of(toolchain.clangxx@),
    ] + cxxflags + quiet);
}

/// A list of paths can be written exactly if no path holds what would end it: `:`, or a quotation mark
/// on Windows, where a path with `;` in it is put in quotation marks.
pub proof fn law_paths_that_can_be_listed(platform: Platform, paths: Seq<Seq<char>>, path: Seq<char>)
    ensures
        listable(platform, paths) <==> forall|i: int|
            0 <= i < paths.len() ==> !(#[trigger] paths[i]).contains(if platform == Platform::Windows {
                '"'
            } else {
                ':'
            }),
        platform == Platform::Windows && path.contains(';') ==> path_list_of(platform, seq![path])
            == "\""@ + posix_of(path) + "\""@,
{
    let c = if platform == Platform::Windows {
        '"'
    } else {
        ':'
    };
    assert forall|i: int| 0 <= i < paths.len() implies has_class(#[trigger] paths[i], Class::Is(c))
        == paths[i].contains(c) by {
        lemma_class_of_one(paths[i], c);
    }
    if platform == Platform::Windows && path.contains(';') {
        lemma_class_of_one(path, ';');
        let listed = crate::build_env::environment::listed_paths(platform, seq![path]);
        let whole = "\""@ + path + "\""@;
        assert(listed =~= seq![whole]);
        reveal_with_fuel(joined, 2);
        reveal_strlit("\"");
        law_build_tools_read_forward_slashes(whole);
        law_build_tools_read_forward_slashes(path);
        assert(posix_of(whole) =~= "\""@ + posix_of(path) + "\""@);
    }
}

proof fn lemma_class_of_one(s: Seq<char>, c: char)
    ensures
        has_class(s, Class::Is(c)) == s.contains(c),
{
    if s.contains(c) {
        let i = choose|i: int| 0 <= i < s.len() && s[i] == c;
        assert(crate::text::in_class(Class::Is(c), s[i]));
    }
    if has_class(s, Class::Is(c)) {
        let i = choose|i: int| 0 <= i < s.len() && crate::text::in_class(Class::Is(c), #[trigger] s[i]);
        assert(s[i] == c);
    }
}

/// What is derived is of one piece: the environment has the flags and the tools that are reported along
/// with it, the toolchain is one of its own exactly if one was given, and then it brings the C++ library
/// that programs need where they run.
pub proof fn law_what_is_derived_is_of_one_piece(
    platform: Platform,
    config: Config,
    sdk: Sdk,
    found: Found,
    generator_set: bool,
    toolchain_file: Option<Result<String, Error>>,
    step: DeriveStep,
)
    requires
        derive_step(platform, config, sdk, found, generator_set, toolchain_file, step),
    ensures
        step matches DeriveStep::Done(Ok(built)) ==> {
            let ninja = program_of(
                platform,
                joined_path(
                    platform,
                    joined_path(
                        platform,
                        joined_path(
                            platform,
                            joined_path(platform, sdk.native_root@, "build-tools"@),
                            "cmake"@,
                        ),
                        "bin"@,
                    ),
                    "ninja"@,
                ),
            );
            let file = match (sdk.cmake_toolchain_file, toolchain_file) {
                (Some(_), Some(Ok(written))) => Some(written@),
                _ => None,
            };
            &&& built.sdk == sdk
            &&& built.target == config.target
            &&& built.env@ == env_of(
                platform,
                config.llvm is Some && !config.no_inline_flags,
                built.sdk,
                built.target,
                built.toolchain,
                texts(built.flags.cflags@),
                texts(built.flags.cxxflags@),
                texts(built.flags.bindgen@),
                !generator_set && found.files@.contains(ninja),
                file,
            )
            &&& flags_are(platform, built.sdk, built.target, built.flags)
            &&& built.toolchain.external == config.llvm is Some
            &&& config.llvm is None ==> built.toolchain.root@ == sdk.llvm_root@
                && built.runtime_libraries@.len() == 0
            &&& config.llvm is Some ==> {
                &&& found.canonical_llvm matches Ok(root)
                &&& built.toolchain.root@ == root@
                &&& built.runtime_libraries@.len() == 1
                &&& built.runtime_libraries@[0].soname@ == "libc++.so"@
                &&& built.runtime_libraries@[0].path@ == joined_path(
                    platform,
                    joined_path(
                        platform,
                        joined_path(platform, built.toolchain.root@, "lib"@),
                        built.target.lib_dir@,
                    ),
                    "libc++.so"@,
                )
                &&& found.files@.contains(built.runtime_libraries@[0].path@)
            }
        },
        sdk.cmake_toolchain_file is Some && toolchain_file is None ==> !(
        step matches DeriveStep::Done(Ok(_))),
{
}

/// What can be derived is: with a toolchain that resolves, the C++ library where one is needed, values
/// that can be carried and listed, and the file for CMake written where there is one, there is an
/// environment; and without any of these there is none.
pub proof fn law_what_can_be_derived_is(
    platform: Platform,
    config: Config,
    sdk: Sdk,
    found: Found,
    generator_set: bool,
    toolchain_file: Option<Result<String, Error>>,
    step: DeriveStep,
    toolchain: Toolchain,
    flags: Flags,
)
    requires
        derive_step(platform, config, sdk, found, generator_set, toolchain_file, step),
        resolve_is(platform, sdk, config.llvm, found, Ok::<Toolchain, Error>(toolchain)),
        flags_are(platform, sdk, config.target, flags),
    ensures
        ({
            let usr = joined_path(platform, sdk.sysroot@, "usr"@);
            let has_library = config.llvm is None || found.files@.contains(
                joined_path(
                    platform,
                    joined_path(
                        platform,
                        joined_path(platform, toolchain.root@, "lib"@),
                        config.target.lib_dir@,
                    ),
                    "libc++.so"@,
                ),
            );
            let spaced = first_spaced(
                config.llvm is Some && !config.no_inline_flags,
                toolchain,
                texts(flags.cflags@),
                texts(flags.cxxflags@),
            );
            let can_be_listed = listable(
                platform,
                seq![
                    joined_path(platform, joined_path(platform, usr, "lib"@), "pkgconfig"@),
                    joined_path(platform, joined_path(platform, usr, "share"@), "pkgconfig"@),
                ],
            );
            let is_written = sdk.cmake_toolchain_file is None || (toolchain_file matches Some(Ok(_)));
            &&& (step matches DeriveStep::Done(Ok(_))) <==> has_library && spaced is None && is_written
                && can_be_listed
            &&& step is WriteToolchainFile <==> has_library && spaced is None
                && sdk.cmake_toolchain_file is Some && toolchain_file is None
            &&& has_library && spaced is Some ==> (step matches DeriveStep::Done(
                Err(Error::WhitespaceInCompilerValue { part }),
            ) && Some(part@) == spaced)
        }),
{
    lemma_resolved(platform, config, sdk, found, toolchain, flags);
    assert(pkg_config_paths(platform, sdk) == seq![
        joined_path(
            platform,
            joined_path(platform, joined_path(platform, sdk.sysroot@, "usr"@), "lib"@),
            "pkgconfig"@,
        ),
        joined_path(
            platform,
            joined_path(platform, joined_path(platform, sdk.sysroot@, "usr"@), "share"@),
            "pkgconfig"@,
        ),
    ]);
}

proof fn lemma_resolved(
    platform: Platform,
    config: Config,
    sdk: Sdk,
    found: Found,
    toolchain: Toolchain,
    flags: Flags,
)
    requires
        resolve_is(platform, sdk, config.llvm, found, Ok::<Toolchain, Error>(toolchain)),
        flags_are(platform, sdk, config.target, flags),
    ensures
        crate::toolchain::resolvable(platform, sdk, config.llvm, found),
        crate::toolchain::root_of(sdk, config.llvm, found) == toolchain.root@,
        toolchain.clang@ == crate::toolchain::tool_path(platform, toolchain.root@, "clang"@),
        toolchain.clangxx@ == crate::toolchain::tool_path(platform, toolchain.root@, "clang++"@),
        crate::build_env::unspeakable_part(platform, config, sdk, found) == first_spaced(
            config.llvm is Some && !config.no_inline_flags,
            toolchain,
            texts(flags.cflags@),
            texts(flags.cxxflags@),
        ),
{
    crate::toolchain::law_resolving_succeeds_if_it_can(
        platform,
        sdk,
        config.llvm,
        found,
        Ok::<Toolchain, Error>(toolchain),
    );
}

/// The variables are made of what is handed in: the target, the tools, and each compiler's own flags.
pub proof fn law_variables_are_made_of_what_is_given(
    platform: Platform,
    config: Config,
    sdk: Sdk,
    target: Target,
    toolchain: Toolchain,
    flags: Flags,
    ninja: Option<Seq<char>>,
    toolchain_file: Option<Result<String, Error>>,
    step: MapStep,
)
    requires
        map_step(
            platform,
            config,
            sdk,
            target,
            toolchain,
            flags,
            ninja,
            toolchain_file,
            step,
        ),
    ensures
        step matches MapStep::Done(Ok(env)) ==> env@ == env_of(
            platform,
            config.llvm is Some && !config.no_inline_flags,
            sdk,
            target,
            toolchain,
            texts(flags.cflags@),
            texts(flags.cxxflags@),
            texts(flags.bindgen@),
            ninja is Some,
            match (sdk.cmake_toolchain_file, toolchain_file) {
                (Some(_), Some(Ok(written))) => Some(written@),
                _ => None,
            },
        ),
        step matches MapStep::WriteToolchainFile(generated) ==> (
        sdk.cmake_toolchain_file matches Some(sdk_file) && generated.contents@ == toolchain_file_text(
            sdk_file@,
            toolchain.clang@,
            toolchain.clangxx@,
            joined(texts(flags.cflags@), " "@),
            joined(texts(flags.cxxflags@), " "@),
            abi_of(target.arch),
            ninja,
        )),
{
}

/// The file for CMake is made of what the environment is made of: the same compilers, and the same flags.
pub proof fn law_the_file_is_of_one_piece_with_the_build(
    platform: Platform,
    config: Config,
    sdk: Sdk,
    found: Found,
    generator_set: bool,
    toolchain_file: Option<Result<String, Error>>,
    step: DeriveStep,
    toolchain: Toolchain,
    flags: Flags,
)
    requires
        derive_step(platform, config, sdk, found, generator_set, toolchain_file, step),
        resolve_is(platform, sdk, config.llvm, found, Ok::<Toolchain, Error>(toolchain)),
        flags_are(platform, sdk, config.target, flags),
    ensures
        step matches DeriveStep::WriteToolchainFile(generated) ==> (
        sdk.cmake_toolchain_file matches Some(sdk_file) && exists|ninja: Option<Seq<char>>|
            generated.contents@ == #[trigger] toolchain_file_text(
                sdk_file@,
                toolchain.clang@,
                toolchain.clangxx@,
                joined(texts(flags.cflags@), " "@),
                joined(texts(flags.cxxflags@), " "@),
                abi_of(config.target.arch),
                ninja,
            )),
{
    lemma_resolved(platform, config, sdk, found, toolchain, flags);
}

/// Flags without whitespace in them are read back from the variables they are given in, each as a word of
/// its own and in their order: from those of the compilers, or else behind the compilers themselves.
pub proof fn law_flags_are_read_back_from_variables(
    platform: Platform,
    inline: bool,
    sdk: Sdk,
    target: Target,
    toolchain: Toolchain,
    cflags: Seq<Seq<char>>,
    cxxflags: Seq<Seq<char>>,
    bindgen: Seq<Seq<char>>,
    use_ninja: bool,
    toolchain_file: Option<Seq<char>>,
)
    requires
        are_words(cflags),
        are_words(cxxflags),
        are_words(seq![posix_of(toolchain.clang@), posix_of(toolchain.clangxx@)]),
    ensures
        ({
            let env = env_of(
                platform,
                inline,
                sdk,
                target,
                toolchain,
                cflags,
                cxxflags,
                bindgen,
                use_ninja,
                toolchain_file,
            );
            let cc = words(env["CC_"@ + target.rust_underscored()]);
            let cxx = words(env["CXX_"@ + target.rust_underscored()]);
            &&& cc.len() > 0 && cc[0] == posix_of(toolchain.clang@)
            &&& cxx.len() > 0 && cxx[0] == posix_of(toolchain.clangxx@)
            &&& inline ==> cflags.is_prefix_of(cc.skip(1)) && cxxflags.is_prefix_of(cxx.skip(1))
            &&& !inline ==> {
                &&& cc.len() == 1 && cxx.len() == 1
                &&& words(env["TARGET_CFLAGS"@]) == cflags
                &&& words(env["TARGET_CPPFLAGS"@]) == cflags
                &&& words(env["TARGET_CXXFLAGS"@]) == cxxflags
            }
        }),
{
    law_compilers_carry_their_flags(
        platform,
        inline,
        sdk,
        target,
        toolchain,
        cflags,
        cxxflags,
        bindgen,
        use_ninja,
        toolchain_file,
    );
    law_flags_travel_once(
        platform,
        inline,
        sdk,
        target,
        toolchain,
        cflags,
        cxxflags,
        bindgen,
        use_ninja,
        toolchain_file,
    );
    let both = seq![posix_of(toolchain.clang@), posix_of(toolchain.clangxx@)];
    assert(both[0] == posix_of(toolchain.clang@) && both[1] == posix_of(toolchain.clangxx@));
    law_words_are_read_back(cflags);
    law_words_are_read_back(cxxflags);
    lemma_program_is_read_back(both[0], cflags);
    lemma_program_is_read_back(both[1], cxxflags);
}

/// Whether none of the texts is empty or holds whitespace.
pub open spec fn are_words(list: Seq<Seq<char>>) -> bool {
    forall|i: int|
        0 <= i < list.len() ==> (#[trigger] list[i]).len() > 0 && !has_class(
            list[i],
            Class::Whitespace,
        )
}

proof fn lemma_program_is_read_back(program: Seq<char>, flags: Seq<Seq<char>>)
    requires
        program.len() > 0,
        !has_class(program, Class::Whitespace),
        are_words(flags),
    ensures
        words(program) == seq![program],
        ({
            let quiet = seq!["-Wno-unused-command-line-argument"@];
            let list = words(joined(seq![program] + flags + quiet, " "@));
            &&& list.len() > 0 && list[0] == program
            &&& flags.is_prefix_of(list.skip(1))
        }),
{
    let one = seq![program];
    let quiet = "-Wno-unused-command-line-argument"@;
    let all = one + flags + seq![quiet];
    reveal_with_fuel(joined, 2);
    law_words_are_read_back(one);
    reveal_strlit("-Wno-unused-command-line-argument");
    assert(!has_class(quiet, Class::Whitespace)) by {
        assert forall|i: int| 0 <= i < quiet.len() implies !in_class(
            Class::Whitespace,
            #[trigger] quiet[i],
        ) by {}
    }
    assert forall|i: int| 0 <= i < all.len() implies (#[trigger] all[i]).len() > 0 && !has_class(
        all[i],
        Class::Whitespace,
    ) by {
        if 0 < i <= flags.len() {
            assert(all[i] == flags[i - 1]);
        }
    }
    law_words_are_read_back(all);
    assert(joined(one, " "@) =~= program);
    assert(flags.is_prefix_of(all.skip(1)));
}

} // verus!
