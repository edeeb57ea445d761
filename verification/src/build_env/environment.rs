//! The environment variables by which build tools learn of a target.

use crate::build_env::Error;
use crate::ordered::StringMap;
use crate::path::{join as join_path, join2, joined_path, posix, posix_of, Platform};
use crate::sdk::Sdk;
use crate::sort::{first_index, lemma_first_index, lemma_first_index_bounds};
use crate::target::Target;
use crate::text::{
    cat2, cat3, decimal, decimal_string, has_char_in, has_class, in_class, join, joined,
    lemma_split_undoes_join, pieces, replaced, texts, Class,
};
use crate::toolchain::Toolchain;
use vstd::prelude::*;

verus! {

/// Silences warnings about flags a compiler invocation does not use: a build system that probes flags
/// with `-Werror` would take them for "unsupported".
pub const QUIET: &'static str = "-Wno-unused-command-line-argument";

/// A program and its flags.
pub open spec fn carried(program: Seq<char>, flags: Seq<Seq<char>>) -> Seq<Seq<char>> {
    seq![program] + flags
}

/// The parts of a compiler value that carries its flags.
pub open spec fn inline_parts(program: Seq<char>, flags: Seq<Seq<char>>) -> Seq<Seq<char>> {
    carried(program, flags).push("-Wno-unused-command-line-argument"@)
}

/// The first of the parts with whitespace in it; such a value would be split in the wrong places.
pub open spec fn spaced_part(parts: Seq<Seq<char>>) -> Option<Seq<char>> {
    let i = first_index(parts, |part: Seq<char>| has_class(part, Class::Whitespace)) as int;
    if i < parts.len() {
        Some(parts[i])
    } else {
        None
    }
}

/// The first part with whitespace that the compiler values would carry: of the C compiler and its
/// flags, then of the C++ compiler and its flags. None where the values carry no flags.
pub open spec fn spaced_of(
    inline: bool,
    clang: Seq<char>,
    clangxx: Seq<char>,
    cflags: Seq<Seq<char>>,
    cxxflags: Seq<Seq<char>>,
) -> Option<Seq<char>> {
    if inline {
        spaced_part(carried(posix_of(clang), cflags) + carried(posix_of(clangxx), cxxflags))
    } else {
        None
    }
}

/// The first part with whitespace that the compiler values of a toolchain would carry.
pub open spec fn first_spaced(
    inline: bool,
    toolchain: Toolchain,
    cflags: Seq<Seq<char>>,
    cxxflags: Seq<Seq<char>>,
) -> Option<Seq<char>> {
    spaced_of(inline, toolchain.clang@, toolchain.clangxx@, cflags, cxxflags)
}

/// The value of `CC` or `CXX` that carries the flags.
pub fn inline_value(program: &str, flags: &Vec<String>) -> (res: Result<String, Error>)
    ensures
        match res {
            Ok(value) => {
                &&& spaced_part(carried(program@, texts(flags@))) is None
                &&& value@ == joined(inline_parts(program@, texts(flags@)), " "@)
            },
            Err(error) => {
                &&& error matches Error::WhitespaceInCompilerValue { part }
                &&& spaced_part(carried(program@, texts(flags@))) == Some(part@)
            },
        },
{
    let mut parts: Vec<String> = Vec::new();
    parts.push(program.to_owned());
    let mut i: usize = 0;
    while i < flags.len()
        invariant
            i <= flags.len(),
            parts.len() == i + 1,
            parts@[0]@ == program@,
            forall|k: int| 0 <= k < i ==> (#[trigger] parts@[k + 1])@ == flags@[k]@,
        decreases flags.len() - i,
    {
        parts.push(flags[i].clone());
        i += 1;
    }
    let ghost all = carried(program@, texts(flags@));
    proof {
        assert forall|k: int| 0 <= k < parts.len() implies texts(parts@)[k] == #[trigger] all[k] by {
            if 0 < k {
                assert(parts@[(k - 1) + 1]@ == flags@[k - 1]@);
            }
        }
        assert(texts(parts@) =~= all);
    }
    let mut n: usize = 0;
    while n < parts.len() && !has_char_in(parts[n].as_str(), Class::Whitespace)
        invariant
            n <= parts.len(),
            all == texts(parts@),
            forall|k: int| 0 <= k < n ==> !has_class(#[trigger] all[k], Class::Whitespace),
        decreases parts.len() - n,
    {
        proof {
            assert(all[n as int] == parts@[n as int]@);
        }
        n += 1;
    }
    proof {
        if n < parts.len() {
            assert(all[n as int] == parts@[n as int]@);
        }
        lemma_first_index(all, |part: Seq<char>| has_class(part, Class::Whitespace), n as int);
    }
    if n < parts.len() {
        return Err(Error::WhitespaceInCompilerValue { part: parts[n].clone() });
    }
    parts.push(QUIET.to_owned());
    proof {
        assert(texts(parts@) =~= inline_parts(program@, texts(flags@)));
    }
    Ok(join(&parts, " "))
}

/// The first part with whitespace of two lists is that of the first list, if it has one.
pub proof fn lemma_spaced_part_of_both(a: Seq<Seq<char>>, b: Seq<Seq<char>>)
    ensures
        spaced_part(a + b) == if spaced_part(a) is Some {
            spaced_part(a)
        } else {
            spaced_part(b)
        },
{
    let spaced = |part: Seq<char>| has_class(part, Class::Whitespace);
    lemma_first_index_bounds(a, spaced);
    lemma_first_index_bounds(b, spaced);
    let i = first_index(a, spaced) as int;
    let j = first_index(b, spaced) as int;
    let n = if i < a.len() {
        i
    } else {
        a.len() + j
    };
    assert forall|k: int| 0 <= k < n implies !spaced(#[trigger] (a + b)[k]) by {
        if k < a.len() {
            assert((a + b)[k] == a[k]);
        } else {
            assert((a + b)[k] == b[k - a.len()]);
        }
    }
    lemma_first_index(a + b, spaced, n);
}

/// A part is refused exactly if the compiler values are to carry flags and one of their parts has
/// whitespace in it; the part that is refused is the first such.
pub proof fn law_the_first_spaced_part_is_refused(
    inline: bool,
    toolchain: Toolchain,
    cflags: Seq<Seq<char>>,
    cxxflags: Seq<Seq<char>>,
)
    ensures
        ({
            let parts = carried(posix_of(toolchain.clang@), cflags) + carried(
                posix_of(toolchain.clangxx@),
                cxxflags,
            );
            let refused = first_spaced(inline, toolchain, cflags, cxxflags);
            &&& refused is Some <==> inline && exists|i: int|
                0 <= i < parts.len() && has_class(#[trigger] parts[i], Class::Whitespace)
            &&& refused is Some ==> exists|i: int|
                {
                    &&& 0 <= i < parts.len()
                    &&& #[trigger] parts[i] == refused->Some_0
                    &&& has_class(parts[i], Class::Whitespace)
                    &&& forall|j: int|
                        0 <= j < i ==> !has_class(#[trigger] parts[j], Class::Whitespace)
                }
        }),
{
    let parts = carried(posix_of(toolchain.clang@), cflags) + carried(
        posix_of(toolchain.clangxx@),
        cxxflags,
    );
    let spaced = |part: Seq<char>| has_class(part, Class::Whitespace);
    lemma_first_index_bounds(parts, spaced);
    let at = first_index(parts, spaced) as int;
    if at < parts.len() {
        assert(spaced(parts[at]));
        assert forall|j: int| 0 <= j < at implies !has_class(
            #[trigger] parts[j],
            Class::Whitespace,
        ) by {
            assert(!spaced(parts[j]));
        }
    } else {
        assert forall|j: int| 0 <= j < parts.len() implies !has_class(
            #[trigger] parts[j],
            Class::Whitespace,
        ) by {
            assert(!spaced(parts[j]));
        }
    }
}

/// A value that carries flags can be taken apart again: cutting it at whitespace gives the program
/// and each flag.
pub proof fn law_inline_value_splits_back(program: Seq<char>, flags: Seq<Seq<char>>)
    requires
        spaced_part(carried(program, flags)) is None,
    ensures
        pieces(joined(inline_parts(program, flags), " "@), Class::Is(' ')) == inline_parts(
            program,
            flags,
        ),
{
    let front = carried(program, flags);
    let parts = inline_parts(program, flags);
    let spaced = |part: Seq<char>| has_class(part, Class::Whitespace);
    lemma_first_index_bounds(front, spaced);
    reveal_strlit(" ");
    reveal_strlit("-Wno-unused-command-line-argument");
    assert(" "@ =~= seq![' ']);
    assert forall|i: int| 0 <= i < parts.len() implies !has_class(
        #[trigger] parts[i],
        Class::Is(' '),
    ) by {
        if i < front.len() {
            assert(parts[i] == front[i]);
            assert(!spaced(front[i]));
            if has_class(parts[i], Class::Is(' ')) {
                let k = choose|k: int|
                    0 <= k < parts[i].len() && in_class(Class::Is(' '), #[trigger] parts[i][k]);
                assert(in_class(Class::Whitespace, parts[i][k]));
            }
        }
    }
    lemma_split_undoes_join(parts, ' ');
}

/// The character between the paths of a list.
pub open spec fn list_separator(platform: Platform) -> char {
    if platform == Platform::Windows {
        ';'
    } else {
        ':'
    }
}

/// The character no path of a list can hold.
pub open spec fn unlistable(platform: Platform) -> char {
    if platform == Platform::Windows {
        '"'
    } else {
        ':'
    }
}

/// A path as it stands in a list. On Windows one that holds a separator is quoted.
pub open spec fn listed_path(platform: Platform, path: Seq<char>) -> Seq<char> {
    if platform == Platform::Windows && has_class(path, Class::Is(';')) {
        "\""@ + path + "\""@
    } else {
        path
    }
}

pub open spec fn listed_paths(platform: Platform, paths: Seq<Seq<char>>) -> Seq<Seq<char>> {
    paths.map_values(|path: Seq<char>| listed_path(platform, path))
}

/// Whether the paths can stand in one list.
pub open spec fn listable(platform: Platform, paths: Seq<Seq<char>>) -> bool {
    forall|i: int|
        0 <= i < paths.len() ==> !has_class(#[trigger] paths[i], Class::Is(unlistable(platform)))
}

/// The list of the paths, with forward slashes.
pub open spec fn path_list_of(platform: Platform, paths: Seq<Seq<char>>) -> Seq<char> {
    posix_of(joined(listed_paths(platform, paths), seq![list_separator(platform)]))
}

/// How it is reported that a path cannot stand in a list.
pub open spec fn is_join_error(platform: Platform, error: Error) -> bool {
    error matches Error::JoinPaths { source } && source@ == if platform == Platform::Windows {
        "path segment contains `\"`"@
    } else {
        "path segment contains separator `:`"@
    }
}

/// Joins paths into a list as the platform writes it.
pub fn path_list(platform: Platform, paths: &Vec<String>) -> (res: Result<String, Error>)
    ensures
        match res {
            Ok(value) => listable(platform, texts(paths@)) && value@ == path_list_of(
                platform,
                texts(paths@),
            ),
            Err(error) => {
                &&& !listable(platform, texts(paths@))
                &&& is_join_error(platform, error)
            },
        },
{
    let windows = platform == Platform::Windows;
    let bad = if windows {
        '"'
    } else {
        ':'
    };
    let ghost all = texts(paths@);
    let mut listed: Vec<String> = Vec::new();
    let mut i: usize = 0;
    while i < paths.len()
        invariant
            i <= paths.len(),
            all == texts(paths@),
            windows == (platform == Platform::Windows),
            bad == unlistable(platform),
            listed.len() == i,
            forall|k: int| 0 <= k < i ==> !has_class(#[trigger] all[k], Class::Is(bad)),
            forall|k: int| 0 <= k < i ==> (#[trigger] listed@[k])@ == listed_path(platform, all[k]),
        decreases paths.len() - i,
    {
        let path = paths[i].as_str();
        proof {
            assert(all[i as int] == path@);
        }
        if has_char_in(path, Class::Is(bad)) {
            let source = if windows {
                "path segment contains `\"`".to_owned()
            } else {
                "path segment contains separator `:`".to_owned()
            };
            return Err(Error::JoinPaths { source });
        }
        if windows && has_char_in(path, Class::Is(';')) {
            listed.push(cat3("\"", path, "\""));
        } else {
            listed.push(path.to_owned());
        }
        i += 1;
    }
    proof {
        assert(texts(listed@) =~= listed_paths(platform, all));
        reveal_strlit(";");
        reveal_strlit(":");
        assert(";"@ =~= seq![';']);
        assert(":"@ =~= seq![':']);
    }
    let separator = if windows {
        ";"
    } else {
        ":"
    };
    Ok(posix(join(&listed, separator).as_str()))
}

proof fn lemma_replaced_concat(a: Seq<char>, b: Seq<char>, from: char, to: Seq<char>)
    ensures
        replaced(a + b, from, to) == replaced(a, from, to) + replaced(b, from, to),
    decreases b.len(),
{
    if b.len() == 0 {
        assert(a + b =~= a);
        assert(replaced(a, from, to) + replaced(b, from, to) =~= replaced(a, from, to));
    } else {
        lemma_replaced_concat(a, b.drop_last(), from, to);
        assert((a + b).drop_last() =~= a + b.drop_last());
        assert(replaced(a + b, from, to) =~= replaced(a, from, to) + replaced(b, from, to));
    }
}

proof fn lemma_posix_of_joined(parts: Seq<Seq<char>>, c: char)
    requires
        c != '\\',
    ensures
        posix_of(joined(parts, seq![c])) == joined(
            parts.map_values(|part: Seq<char>| posix_of(part)),
            seq![c],
        ),
    decreases parts.len(),
{
    let mapped = parts.map_values(|part: Seq<char>| posix_of(part));
    reveal_strlit("/");
    if parts.len() == 0 {
        assert(posix_of(joined(parts, seq![c])) =~= joined(mapped, seq![c]));
    } else if parts.len() > 1 {
        let front = joined(parts.drop_last(), seq![c]);
        lemma_posix_of_joined(parts.drop_last(), c);
        assert(parts.drop_last().map_values(|part: Seq<char>| posix_of(part)) =~= mapped.drop_last());
        lemma_replaced_concat(front + seq![c], parts.last(), '\\', "/"@);
        lemma_replaced_concat(front, seq![c], '\\', "/"@);
        assert(seq![c].drop_last() =~= seq![]);
        assert(replaced(seq![c].drop_last(), '\\', "/"@) =~= seq![]);
        assert(posix_of(seq![c]) =~= seq![c]);
    }
}

/// A list of paths splits at the platform's separator into the paths that went in, with forward
/// slashes, as long as none of them holds the separator itself.
pub proof fn law_path_list_splits_back(platform: Platform, paths: Seq<Seq<char>>)
    requires
        paths.len() > 0,
        listable(platform, paths),
        forall|i: int|
            0 <= i < paths.len() ==> !has_class(
                #[trigger] paths[i],
                Class::Is(list_separator(platform)),
            ),
    ensures
        pieces(path_list_of(platform, paths), Class::Is(list_separator(platform)))
            == paths.map_values(|path: Seq<char>| posix_of(path)),
{
    let c = list_separator(platform);
    let mapped = paths.map_values(|path: Seq<char>| posix_of(path));
    assert(listed_paths(platform, paths) =~= paths) by {
        assert forall|i: int| 0 <= i < paths.len() implies listed_path(platform, paths[i])
            == #[trigger] paths[i] by {
            assert(!has_class(paths[i], Class::Is(c)));
        }
    }
    lemma_posix_of_joined(paths, c);
    assert forall|i: int| 0 <= i < mapped.len() implies !has_class(
        #[trigger] mapped[i],
        Class::Is(c),
    ) by {
        assert(!has_class(paths[i], Class::Is(c)));
        lemma_posix_adds_only_slashes(paths[i], c);
    }
    lemma_split_undoes_join(mapped, c);
}

proof fn lemma_posix_adds_only_slashes(path: Seq<char>, c: char)
    requires
        c != '/',
        !has_class(path, Class::Is(c)),
    ensures
        !has_class(posix_of(path), Class::Is(c)),
    decreases path.len(),
{
    reveal_strlit("/");
    if path.len() > 0 {
        let front = path.drop_last();
        assert(!has_class(front, Class::Is(c))) by {
            assert forall|i: int| 0 <= i < front.len() implies !in_class(
                Class::Is(c),
                #[trigger] front[i],
            ) by {
                assert(front[i] == path[i]);
                assert(!in_class(Class::Is(c), path[i]));
            }
        }
        assert(!in_class(Class::Is(c), path[path.len() - 1]));
        lemma_posix_adds_only_slashes(front, c);
        let end = if path.last() == '\\' {
            "/"@
        } else {
            seq![path.last()]
        };
        let whole = posix_of(path);
        assert(whole == posix_of(front) + end);
        assert forall|i: int| 0 <= i < whole.len() implies !in_class(Class::Is(c), #[trigger] whole[i]) by {
            if i < posix_of(front).len() {
                assert(whole[i] == posix_of(front)[i]);
                assert(!in_class(Class::Is(c), posix_of(front)[i]));
            }
        }
    }
}

/// The environment, by name.
pub type Env = Map<Seq<char>, Seq<char>>;

/// The C and C++ compilers of the target, under both spellings of its name.
pub open spec fn with_compilers(env: Env, target: Target, cc: Seq<char>, cxx: Seq<char>) -> Env {
    let rust = target.rust_triple@;
    let rust_u = target.rust_underscored();
    env.insert("CC_"@ + rust, cc).insert("CC_"@ + rust_u, cc).insert("CXX_"@ + rust, cxx).insert(
        "CXX_"@ + rust_u,
        cxx,
    )
}

/// On macOS the compilers of the host: those of the system know where its SDK is, and `cc` on the
/// path may be a cross-compiler wrapper.
pub open spec fn with_host_compilers(env: Env, platform: Platform) -> Env {
    if platform == Platform::Macos {
        env.insert("HOST_CC"@, "/usr/bin/cc"@).insert("HOST_CXX"@, "/usr/bin/c++"@)
    } else {
        env
    }
}

/// The other tools of the toolchain.
pub open spec fn with_tools(env: Env, target: Target, toolchain: Toolchain) -> Env {
    env.insert("CXXSTDLIB_"@ + target.rust_underscored(), "c++"@).insert(
        "TARGET_AR"@,
        posix_of(toolchain.ar@),
    ).insert("TARGET_RANLIB"@, posix_of(toolchain.ranlib@)).insert(
        "TARGET_STRIP"@,
        posix_of(toolchain.strip@),
    ).insert("TARGET_OBJCOPY"@, posix_of(toolchain.objcopy@)).insert(
        "TARGET_READELF"@,
        posix_of(toolchain.readelf@),
    )
}

/// The flags, unless the compiler values carry them.
pub open spec fn with_flags(env: Env, inline: bool, cflags: Seq<char>, cxxflags: Seq<char>) -> Env {
    if inline {
        env
    } else {
        env.insert("TARGET_CFLAGS"@, cflags).insert("TARGET_CXXFLAGS"@, cxxflags).insert(
            "TARGET_CPPFLAGS"@,
            cflags,
        )
    }
}

/// The linker, and what bindgen needs.
pub open spec fn with_linker(
    env: Env,
    target: Target,
    toolchain: Toolchain,
    bindgen: Seq<char>,
) -> Env {
    env.insert("CARGO_TARGET_"@ + target.rust_upper() + "_LINKER"@, posix_of(toolchain.clang@)).insert(
        "BINDGEN_EXTRA_CLANG_ARGS_"@ + target.rust_underscored(),
        bindgen,
    ).insert("LIBCLANG_PATH"@, posix_of(toolchain.libclang_dir@)).insert(
        "CLANG_PATH"@,
        posix_of(toolchain.clangxx@),
    )
}

/// What CMake needs: the SDK's program if it has one, the SDK's generator if it is used, the
/// compilers, and the generated toolchain file if there is one.
pub open spec fn with_cmake(
    env: Env,
    sdk: Sdk,
    target: Target,
    toolchain: Toolchain,
    use_ninja: bool,
    toolchain_file: Option<Seq<char>>,
) -> Env {
    let rust_u = target.rust_underscored();
    let with_program = match sdk.cmake {
        Some(cmake) => env.insert("CMAKE"@, posix_of(cmake@)),
        None => env,
    };
    let with_generator = if use_ninja {
        with_program.insert("CMAKE_GENERATOR_"@ + rust_u, "Ninja"@)
    } else {
        with_program
    };
    let with_both = with_generator.insert(
        "CMAKE_C_COMPILER_"@ + rust_u,
        posix_of(toolchain.clang@),
    ).insert("CMAKE_CXX_COMPILER_"@ + rust_u, posix_of(toolchain.clangxx@));
    match toolchain_file {
        Some(file) => with_both.insert("CMAKE_TOOLCHAIN_FILE_"@ + rust_u, posix_of(file)),
        None => with_both,
    }
}

/// Where pkg-config looks for packages of the target.
pub open spec fn pkg_config_paths(platform: Platform, sdk: Sdk) -> Seq<Seq<char>> {
    let usr = joined_path(platform, sdk.sysroot@, "usr"@);
    seq![
        joined_path(platform, joined_path(platform, usr, "lib"@), "pkgconfig"@),
        joined_path(platform, joined_path(platform, usr, "share"@), "pkgconfig"@),
    ]
}

/// What pkg-config needs.
pub open spec fn with_pkg_config(env: Env, platform: Platform, sdk: Sdk, target: Target) -> Env {
    let rust_u = target.rust_underscored();
    env.insert("PKG_CONFIG_SYSROOT_DIR_"@ + rust_u, posix_of(sdk.sysroot@)).insert(
        "PKG_CONFIG_PATH_"@ + rust_u,
        path_list_of(platform, pkg_config_paths(platform, sdk)),
    )
}

/// Which SDK is used.
pub open spec fn with_sdk(env: Env, sdk: Sdk, target: Target) -> Env {
    let with_root = env.insert("OHOS_SDK_NATIVE"@, posix_of(sdk.native_root@)).insert(
        "CARGO_OHOS_SDK_NATIVE"@,
        posix_of(sdk.native_root@),
    );
    let with_level = match sdk.api_version {
        Some(api) => with_root.insert("CARGO_OHOS_API_LEVEL"@, decimal(api as nat)),
        None => with_root,
    };
    with_level.insert("CARGO_OHOS_SYSROOT"@, posix_of(sdk.sysroot@)).insert(
        "CARGO_OHOS_CLANG_TRIPLE"@,
        target.clang_triple@,
    )
}

fn set_variable(env: &mut StringMap, name: &str, value: String)
    ensures
        final(env)@ == old(env)@.insert(name@, value@),
{
    env.insert(name.to_owned(), value);
}

fn set_target_variable(env: &mut StringMap, name: &str, target: &str, value: String)
    ensures
        final(env)@ == old(env)@.insert(name@ + target@, value@),
{
    env.insert(cat2(name, target), value);
}

pub fn set_compilers(env: &mut StringMap, target: &Target, cc: &str, cxx: &str)
    ensures
        final(env)@ == with_compilers(old(env)@, *target, cc@, cxx@),
{
    let rust = target.rust_triple.as_str();
    let underscored = target.rust_triple_underscored();
    set_target_variable(env, "CC_", rust, cc.to_owned());
    set_target_variable(env, "CC_", underscored.as_str(), cc.to_owned());
    set_target_variable(env, "CXX_", rust, cxx.to_owned());
    set_target_variable(env, "CXX_", underscored.as_str(), cxx.to_owned());
}

pub fn set_host_compilers(env: &mut StringMap, platform: Platform)
    ensures
        final(env)@ == with_host_compilers(old(env)@, platform),
{
    if platform == Platform::Macos {
        set_variable(env, "HOST_CC", "/usr/bin/cc".to_owned());
        set_variable(env, "HOST_CXX", "/usr/bin/c++".to_owned());
    }
}

pub fn set_tools(env: &mut StringMap, target: &Target, toolchain: &Toolchain)
    ensures
        final(env)@ == with_tools(old(env)@, *target, *toolchain),
{
    let underscored = target.rust_triple_underscored();
    set_target_variable(env, "CXXSTDLIB_", underscored.as_str(), "c++".to_owned());
    set_variable(env, "TARGET_AR", posix(toolchain.ar.as_str()));
    set_variable(env, "TARGET_RANLIB", posix(toolchain.ranlib.as_str()));
    set_variable(env, "TARGET_STRIP", posix(toolchain.strip.as_str()));
    set_variable(env, "TARGET_OBJCOPY", posix(toolchain.objcopy.as_str()));
    set_variable(env, "TARGET_READELF", posix(toolchain.readelf.as_str()));
}

pub fn set_flags(env: &mut StringMap, inline: bool, cflags: &str, cxxflags: &str)
    ensures
        final(env)@ == with_flags(old(env)@, inline, cflags@, cxxflags@),
{
    if !inline {
        set_variable(env, "TARGET_CFLAGS", cflags.to_owned());
        set_variable(env, "TARGET_CXXFLAGS", cxxflags.to_owned());
        set_variable(env, "TARGET_CPPFLAGS", cflags.to_owned());
    }
}

pub fn set_linker(env: &mut StringMap, target: &Target, toolchain: &Toolchain, bindgen: &str)
    ensures
        final(env)@ == with_linker(old(env)@, *target, *toolchain, bindgen@),
{
    let underscored = target.rust_triple_underscored();
    let linker = cat3("CARGO_TARGET_", target.rust_triple_upper().as_str(), "_LINKER");
    set_variable(env, linker.as_str(), posix(toolchain.clang.as_str()));
    set_target_variable(
        env,
        "BINDGEN_EXTRA_CLANG_ARGS_",
        underscored.as_str(),
        bindgen.to_owned(),
    );
    set_variable(env, "LIBCLANG_PATH", posix(toolchain.libclang_dir.as_str()));
    set_variable(env, "CLANG_PATH", posix(toolchain.clangxx.as_str()));
}

pub fn set_cmake(
    env: &mut StringMap,
    sdk: &Sdk,
    target: &Target,
    toolchain: &Toolchain,
    use_ninja: bool,
    toolchain_file: &Option<String>,
)
    ensures
        final(env)@ == with_cmake(
            old(env)@,
            *sdk,
            *target,
            *toolchain,
            use_ninja,
            crate::text::opt_text(*toolchain_file),
        ),
{
    let underscored = target.rust_triple_underscored();
    let name = underscored.as_str();
    if let Some(cmake) = &sdk.cmake {
        set_variable(env, "CMAKE", posix(cmake.as_str()));
    }
    if use_ninja {
        set_target_variable(env, "CMAKE_GENERATOR_", name, "Ninja".to_owned());
    }
    set_target_variable(env, "CMAKE_C_COMPILER_", name, posix(toolchain.clang.as_str()));
    set_target_variable(env, "CMAKE_CXX_COMPILER_", name, posix(toolchain.clangxx.as_str()));
    if let Some(file) = toolchain_file {
        set_target_variable(env, "CMAKE_TOOLCHAIN_FILE_", name, posix(file.as_str()));
    }
}

pub fn set_pkg_config(env: &mut StringMap, platform: Platform, sdk: &Sdk, target: &Target) -> (res:
    Result<(), Error>)
    ensures
        match res {
            Ok(()) => listable(platform, pkg_config_paths(platform, *sdk)) && final(env)@
                == with_pkg_config(old(env)@, platform, *sdk, *target),
            Err(error) => {
                &&& !listable(platform, pkg_config_paths(platform, *sdk))
                &&& is_join_error(platform, error)
            },
        },
{
    let underscored = target.rust_triple_underscored();
    let usr = join_path(platform, sdk.sysroot.as_str(), "usr");
    let mut paths: Vec<String> = Vec::new();
    paths.push(join2(platform, usr.as_str(), "lib", "pkgconfig"));
    paths.push(join2(platform, usr.as_str(), "share", "pkgconfig"));
    proof {
        assert(texts(paths@) =~= pkg_config_paths(platform, *sdk));
    }
    let list = match path_list(platform, &paths) {
        Ok(list) => list,
        Err(error) => return Err(error),
    };
    set_target_variable(
        env,
        "PKG_CONFIG_SYSROOT_DIR_",
        underscored.as_str(),
        posix(sdk.sysroot.as_str()),
    );
    set_target_variable(env, "PKG_CONFIG_PATH_", underscored.as_str(), list);
    Ok(())
}

pub fn set_sdk(env: &mut StringMap, sdk: &Sdk, target: &Target)
    ensures
        final(env)@ == with_sdk(old(env)@, *sdk, *target),
{
    set_variable(env, "OHOS_SDK_NATIVE", posix(sdk.native_root.as_str()));
    set_variable(env, "CARGO_OHOS_SDK_NATIVE", posix(sdk.native_root.as_str()));
    if let Some(api) = sdk.api_version {
        set_variable(env, "CARGO_OHOS_API_LEVEL", decimal_string(api as u64));
    }
    set_variable(env, "CARGO_OHOS_SYSROOT", posix(sdk.sysroot.as_str()));
    set_variable(env, "CARGO_OHOS_CLANG_TRIPLE", target.clang_triple.clone());
}

/// A number by which the variables of the environment are told apart: the two spellings of the C
/// compiler share one, and so do those of the C++ compiler; all the others have their own.
pub closed spec fn tag(name: Seq<char>) -> int {
    if name[0] == 'C' {
        if name[1] == 'C' {
            1
        } else if name[1] == 'X' {
            if name[3] == '_' {
                2
            } else {
                3
            }
        } else if name[1] == 'L' {
            4
        } else if name[1] == 'M' {
            if name.len() == 5 {
                5
            } else if name[6] == 'G' {
                6
            } else if name[6] == 'T' {
                7
            } else if name[7] == '_' {
                8
            } else {
                9
            }
        } else if name[6] == 'T' {
            10
        } else if name[11] == 'A' {
            11
        } else if name[11] == 'C' {
            12
        } else if name[12] == 'D' {
            13
        } else {
            14
        }
    } else if name[0] == 'T' {
        if name[7] == 'A' {
            15
        } else if name[7] == 'S' {
            16
        } else if name[7] == 'O' {
            17
        } else if name[7] == 'R' {
            if name[8] == 'A' {
                18
            } else {
                19
            }
        } else if name[8] == 'F' {
            20
        } else if name[8] == 'X' {
            21
        } else {
            22
        }
    } else if name[0] == 'H' {
        if name.len() == 7 {
            23
        } else {
            24
        }
    } else if name[0] == 'P' {
        if name[11] == 'S' {
            25
        } else {
            26
        }
    } else if name[0] == 'B' {
        27
    } else if name[0] == 'L' {
        28
    } else {
        29
    }
}

/// No two variables of the environment are in each other's way.
pub proof fn lemma_tags(target: Target)
    ensures
        ({
            let rust = target.rust_triple@;
            let rust_u = target.rust_underscored();
            &&& tag("CC_"@ + rust) == 1
            &&& tag("CC_"@ + rust_u) == 1
            &&& tag("CXX_"@ + rust) == 2
            &&& tag("CXX_"@ + rust_u) == 2
            &&& tag("CXXSTDLIB_"@ + rust_u) == 3
            &&& tag("CLANG_PATH"@) == 4
            &&& tag("CMAKE"@) == 5
            &&& tag("CMAKE_GENERATOR_"@ + rust_u) == 6
            &&& tag("CMAKE_TOOLCHAIN_FILE_"@ + rust_u) == 7
            &&& tag("CMAKE_C_COMPILER_"@ + rust_u) == 8
            &&& tag("CMAKE_CXX_COMPILER_"@ + rust_u) == 9
            &&& tag("CARGO_TARGET_"@ + target.rust_upper() + "_LINKER"@) == 10
            &&& tag("CARGO_OHOS_API_LEVEL"@) == 11
            &&& tag("CARGO_OHOS_CLANG_TRIPLE"@) == 12
            &&& tag("CARGO_OHOS_SDK_NATIVE"@) == 13
            &&& tag("CARGO_OHOS_SYSROOT"@) == 14
            &&& tag("TARGET_AR"@) == 15
            &&& tag("TARGET_STRIP"@) == 16
            &&& tag("TARGET_OBJCOPY"@) == 17
            &&& tag("TARGET_RANLIB"@) == 18
            &&& tag("TARGET_READELF"@) == 19
            &&& tag("TARGET_CFLAGS"@) == 20
            &&& tag("TARGET_CXXFLAGS"@) == 21
            &&& tag("TARGET_CPPFLAGS"@) == 22
            &&& tag("HOST_CC"@) == 23
            &&& tag("HOST_CXX"@) == 24
            &&& tag("PKG_CONFIG_SYSROOT_DIR_"@ + rust_u) == 25
            &&& tag("PKG_CONFIG_PATH_"@ + rust_u) == 26
            &&& tag("BINDGEN_EXTRA_CLANG_ARGS_"@ + rust_u) == 27
            &&& tag("LIBCLANG_PATH"@) == 28
            &&& tag("OHOS_SDK_NATIVE"@) == 29
        }),
{
    reveal_strlit("CC_");
    reveal_strlit("CXX_");
    reveal_strlit("HOST_CC");
    reveal_strlit("HOST_CXX");
    reveal_strlit("CXXSTDLIB_");
    reveal_strlit("TARGET_AR");
    reveal_strlit("TARGET_RANLIB");
    reveal_strlit("TARGET_STRIP");
    reveal_strlit("TARGET_OBJCOPY");
    reveal_strlit("TARGET_READELF");
    reveal_strlit("TARGET_CFLAGS");
    reveal_strlit("TARGET_CXXFLAGS");
    reveal_strlit("TARGET_CPPFLAGS");
    reveal_strlit("CARGO_TARGET_");
    reveal_strlit("BINDGEN_EXTRA_CLANG_ARGS_");
    reveal_strlit("LIBCLANG_PATH");
    reveal_strlit("CLANG_PATH");
    reveal_strlit("CMAKE");
    reveal_strlit("CMAKE_GENERATOR_");
    reveal_strlit("CMAKE_C_COMPILER_");
    reveal_strlit("CMAKE_CXX_COMPILER_");
    reveal_strlit("CMAKE_TOOLCHAIN_FILE_");
    reveal_strlit("PKG_CONFIG_SYSROOT_DIR_");
    reveal_strlit("PKG_CONFIG_PATH_");
    reveal_strlit("OHOS_SDK_NATIVE");
    reveal_strlit("CARGO_OHOS_SDK_NATIVE");
    reveal_strlit("CARGO_OHOS_API_LEVEL");
    reveal_strlit("CARGO_OHOS_SYSROOT");
    reveal_strlit("CARGO_OHOS_CLANG_TRIPLE");
}

} // verus!
