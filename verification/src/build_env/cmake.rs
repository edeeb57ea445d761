//! The CMake toolchain file that is generated for a target.

use crate::digest::{hex, hex_of, lemma_hex_length, sha256, sha256_of};
use crate::path::{join2, joined_path, posix, posix_of, Platform};
use crate::target::{abi_of, Target};
use crate::text::{cat2, cat3, cat5, chars_of, equal, opt_text, string_of};
use vstd::prelude::*;

verus! {

/// The name of the generated file.
pub const TOOLCHAIN_FILE: &'static str = "ohos.toolchain.cmake";

/// The line that assigns a variable.
pub open spec fn setting(name: Seq<char>, value: Seq<char>) -> Seq<char> {
    "set("@ + name + " \""@ + value + "\")\n"@
}

/// The line that reads another file.
pub open spec fn reading(file: Seq<char>) -> Seq<char> {
    "include(\""@ + posix_of(file) + "\")\n"@
}

/// The line that selects the SDK's ninja, if it is used.
pub open spec fn make_program_line(ninja: Option<Seq<char>>) -> Seq<char> {
    match ninja {
        Some(path) => "set(CMAKE_MAKE_PROGRAM \""@ + posix_of(path) + "\" CACHE FILEPATH \"\" FORCE)\n"@,
        None => seq![],
    }
}

/// The contents of the generated file.
///
/// The SDK's file derives the compiler target and the library paths from `OHOS_ARCH` when it is
/// read, so that is assigned before; it assigns the compilers itself, so they are assigned after.
pub open spec fn toolchain_file_text(
    sdk_file: Seq<char>,
    clang: Seq<char>,
    clangxx: Seq<char>,
    cflags: Seq<char>,
    cxxflags: Seq<char>,
    abi: Seq<char>,
    ninja: Option<Seq<char>>,
) -> Seq<char> {
    "# Generated by cargo-ohos; do not edit.\n"@ + setting("OHOS_ARCH"@, abi) + reading(sdk_file)
        + make_program_line(ninja) + setting("CMAKE_C_COMPILER"@, posix_of(clang)) + setting(
        "CMAKE_CXX_COMPILER"@,
        posix_of(clangxx),
    ) + setting("CMAKE_ASM_COMPILER"@, posix_of(clang)) + setting(
        "CMAKE_C_FLAGS"@,
        "${CMAKE_C_FLAGS} "@ + cflags,
    ) + setting("CMAKE_ASM_FLAGS"@, "${CMAKE_ASM_FLAGS} "@ + cflags) + setting(
        "CMAKE_CXX_FLAGS"@,
        "${CMAKE_CXX_FLAGS} "@ + cxxflags,
    )
}

/// The directory the file is generated in: the target's name, and the first twelve digits of the
/// digest of the contents. Environments for different SDKs or toolchains that share a target
/// directory each keep a stable file instead of flipping a shared one back and forth.
pub open spec fn generated_name(clang_triple: Seq<char>, contents: Seq<char>) -> Seq<char> {
    clang_triple + "-"@ + hex_of(sha256_of(vstd::utf8::encode_utf8(contents))).take(12)
}

/// A generated file: what it holds, and the name of its directory.
pub struct CmakeToolchain {
    pub contents: String,
    pub directory: String,
}

/// Whether `generated` is the toolchain file for a target, given the SDK's own file.
pub open spec fn is_toolchain_file(
    sdk_file: Seq<char>,
    clang: Seq<char>,
    clangxx: Seq<char>,
    cflags: Seq<char>,
    cxxflags: Seq<char>,
    target: Target,
    ninja: Option<Seq<char>>,
    generated: CmakeToolchain,
) -> bool {
    &&& generated.contents@ == toolchain_file_text(
        sdk_file,
        clang,
        clangxx,
        cflags,
        cxxflags,
        abi_of(target.arch),
        ninja,
    )
    &&& generated.directory@ == generated_name(target.clang_triple@, generated.contents@)
}

/// Where a generated file goes, below the directory of generated files.
pub open spec fn toolchain_file_at(
    platform: Platform,
    directory: Seq<char>,
    generated: CmakeToolchain,
) -> Seq<char> {
    joined_path(
        platform,
        joined_path(platform, directory, generated.directory@),
        "ohos.toolchain.cmake"@,
    )
}

/// Whether a generated file has to be written: one that is there already and holds the same is left
/// alone, so that its time does not change and dependent builds are not invalidated.
pub open spec fn must_write(existing: Option<Seq<char>>, contents: Seq<char>) -> bool {
    existing != Some(contents)
}

fn append_setting(contents: &mut String, name: &str, value: &str)
    ensures
        final(contents)@ == old(contents)@ + setting(name@, value@),
{
    contents.append(cat5("set(", name, " \"", value, "\")\n").as_str());
}

/// The file for a target, with the given compilers and flags; `ninja` is the SDK's, if it is used.
pub fn generate_cmake_toolchain(
    sdk_file: &str,
    clang: &str,
    clangxx: &str,
    cflags: &str,
    cxxflags: &str,
    target: &Target,
    ninja: &Option<String>,
) -> (res: CmakeToolchain)
    ensures
        is_toolchain_file(
            sdk_file@,
            clang@,
            clangxx@,
            cflags@,
            cxxflags@,
            *target,
            opt_text(*ninja),
            res,
        ),
{
    let clang = posix(clang);
    let clangxx = posix(clangxx);
    let mut contents = "# Generated by cargo-ohos; do not edit.\n".to_owned();
    append_setting(&mut contents, "OHOS_ARCH", target.ohos_abi());
    contents.append(cat3("include(\"", posix(sdk_file).as_str(), "\")\n").as_str());
    let program = match ninja {
        Some(path) => cat3(
            "set(CMAKE_MAKE_PROGRAM \"",
            posix(path.as_str()).as_str(),
            "\" CACHE FILEPATH \"\" FORCE)\n",
        ),
        None => String::new(),
    };
    proof {
        assert(*ninja is None ==> program@ =~= seq![]);
    }
    contents.append(program.as_str());
    append_setting(&mut contents, "CMAKE_C_COMPILER", clang.as_str());
    append_setting(&mut contents, "CMAKE_CXX_COMPILER", clangxx.as_str());
    append_setting(&mut contents, "CMAKE_ASM_COMPILER", clang.as_str());
    append_setting(&mut contents, "CMAKE_C_FLAGS", cat2("${CMAKE_C_FLAGS} ", cflags).as_str());
    append_setting(&mut contents, "CMAKE_ASM_FLAGS", cat2("${CMAKE_ASM_FLAGS} ", cflags).as_str());
    append_setting(&mut contents, "CMAKE_CXX_FLAGS", cat2("${CMAKE_CXX_FLAGS} ", cxxflags).as_str());
    let directory = cat3(target.clang_triple.as_str(), "-", content_key(contents.as_str()).as_str());
    CmakeToolchain { contents, directory }
}

fn content_key(contents: &str) -> (res: String)
    ensures
        res@ == hex_of(sha256_of(vstd::utf8::encode_utf8(contents@))).take(12),
{
    let digest = sha256(contents.as_bytes());
    proof {
        lemma_hex_length(digest@);
    }
    let digits = chars_of(hex(&digest).as_str());
    string_of(&digits, 0, 12)
}

/// The path of a generated file, below the directory of generated files.
pub fn toolchain_file_path(platform: Platform, directory: &str, generated: &CmakeToolchain) -> (res:
    String)
    ensures
        res@ == toolchain_file_at(platform, directory@, *generated),
{
    join2(platform, directory, generated.directory.as_str(), TOOLCHAIN_FILE)
}

/// Whether a generated file has to be written, given what its path holds.
pub fn needs_writing(existing: &Option<String>, contents: &str) -> (res: bool)
    ensures
        res == must_write(opt_text(*existing), contents@),
{
    match existing {
        Some(text) => !equal(text.as_str(), contents),
        None => true,
    }
}

/// Whether `line` stands in `text` at `i`.
pub open spec fn stands_at(text: Seq<char>, i: int, line: Seq<char>) -> bool {
    0 <= i && i + line.len() <= text.len() && text.subrange(i, i + line.len()) == line
}

proof fn lemma_stands_between(before: Seq<char>, line: Seq<char>, after: Seq<char>)
    ensures
        stands_at(before + line + after, before.len() as int, line),
{
    assert((before + line + after).subrange(before.len() as int, (before.len() + line.len()) as int)
        =~= line);
}

/// In the generated file the architecture is assigned before the SDK's own file is read, and the
/// compilers after.
pub proof fn law_lines_are_in_order(
    sdk_file: Seq<char>,
    clang: Seq<char>,
    clangxx: Seq<char>,
    cflags: Seq<char>,
    cxxflags: Seq<char>,
    abi: Seq<char>,
    ninja: Option<Seq<char>>,
)
    ensures
        ({
            let text = toolchain_file_text(sdk_file, clang, clangxx, cflags, cxxflags, abi, ninja);
            let arch = setting("OHOS_ARCH"@, abi);
            let sdk = reading(sdk_file);
            let c_compiler = setting("CMAKE_C_COMPILER"@, posix_of(clang));
            let cxx_compiler = setting("CMAKE_CXX_COMPILER"@, posix_of(clangxx));
            exists|i: int, j: int, k: int, l: int|
                {
                    &&& #[trigger] stands_at(text, i, arch)
                    &&& i + arch.len() <= j
                    &&& #[trigger] stands_at(text, j, sdk)
                    &&& j + sdk.len() <= k
                    &&& #[trigger] stands_at(text, k, c_compiler)
                    &&& k + c_compiler.len() <= l
                    &&& #[trigger] stands_at(text, l, cxx_compiler)
                }
        }),
{
    let text = toolchain_file_text(sdk_file, clang, clangxx, cflags, cxxflags, abi, ninja);
    let arch = setting("OHOS_ARCH"@, abi);
    let sdk = reading(sdk_file);
    let c_compiler = setting("CMAKE_C_COMPILER"@, posix_of(clang));
    let cxx_compiler = setting("CMAKE_CXX_COMPILER"@, posix_of(clangxx));
    let first = "# Generated by cargo-ohos; do not edit.\n"@;
    let second = first + arch;
    let third = second + sdk + make_program_line(ninja);
    let fourth = third + c_compiler;
    let rest = setting("CMAKE_ASM_COMPILER"@, posix_of(clang)) + setting(
        "CMAKE_C_FLAGS"@,
        "${CMAKE_C_FLAGS} "@ + cflags,
    ) + setting("CMAKE_ASM_FLAGS"@, "${CMAKE_ASM_FLAGS} "@ + cflags) + setting(
        "CMAKE_CXX_FLAGS"@,
        "${CMAKE_CXX_FLAGS} "@ + cxxflags,
    );
    let after_fourth = cxx_compiler + rest;
    let after_third = c_compiler + after_fourth;
    let after_second = sdk + make_program_line(ninja) + after_third;
    assert(text =~= fourth + cxx_compiler + rest);
    assert(text =~= third + c_compiler + after_fourth);
    assert(text =~= second + sdk + (make_program_line(ninja) + after_third));
    assert(text =~= first + arch + after_second);
    lemma_stands_between(first, arch, after_second);
    lemma_stands_between(second, sdk, make_program_line(ninja) + after_third);
    lemma_stands_between(third, c_compiler, after_fourth);
    lemma_stands_between(fourth, cxx_compiler, rest);
    assert(stands_at(text, first.len() as int, arch) && stands_at(text, second.len() as int, sdk)
        && stands_at(text, third.len() as int, c_compiler) && stands_at(
        text,
        fourth.len() as int,
        cxx_compiler,
    ));
}

/// Generating a file a second time gives the same file in the same place, and does not write it
/// again.
pub proof fn law_the_second_time_nothing_is_written(
    platform: Platform,
    directory: Seq<char>,
    sdk_file: Seq<char>,
    clang: Seq<char>,
    clangxx: Seq<char>,
    cflags: Seq<char>,
    cxxflags: Seq<char>,
    target: Target,
    ninja: Option<Seq<char>>,
    first: CmakeToolchain,
    second: CmakeToolchain,
)
    requires
        is_toolchain_file(sdk_file, clang, clangxx, cflags, cxxflags, target, ninja, first),
        is_toolchain_file(sdk_file, clang, clangxx, cflags, cxxflags, target, ninja, second),
    ensures
        toolchain_file_at(platform, directory, first) == toolchain_file_at(
            platform,
            directory,
            second,
        ),
        must_write(None, first.contents@),
        !must_write(Some(first.contents@), second.contents@),
{
}

} // verus!
