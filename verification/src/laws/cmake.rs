//! Laws of the toolchain file for CMake.

use crate::build_env::cmake::{
    generated_name, is_toolchain_file, must_write, toolchain_file_at, toolchain_file_text,
    CmakeToolchain,
};
use crate::digest::{hex_of, sha256_of};
use crate::laws::text::law_slices;
use crate::path::{joined_path, posix_of, Platform};
use crate::target::Target;
use crate::text::has_slice;
use vstd::prelude::*;

verus! {

/// The file has a line for each thing it sets: the architecture as the SDK names it, the SDK's own file
/// to read, the compilers, and behind the flags that are there already those of the target.
pub proof fn law_the_file_sets_up_the_toolchain(
    sdk_file: Seq<char>,
    clang: Seq<char>,
    clangxx: Seq<char>,
    cflags: Seq<char>,
    cxxflags: Seq<char>,
    abi: Seq<char>,
    ninja: Option<Seq<char>>,
)
    ensures
        ({
            let text = toolchain_file_text(sdk_file, clang, clangxx, cflags, cxxflags, abi, ninja);
            let end = "\")\n"@;
            &&& has_slice(text, "set("@ + "OHOS_ARCH"@ + " \""@ + abi + end)
            &&& has_slice(text, "include(\""@ + posix_of(sdk_file) + end)
            &&& has_slice(text, "set("@ + "CMAKE_C_COMPILER"@ + " \""@ + posix_of(clang) + end)
            &&& has_slice(text, "set("@ + "CMAKE_CXX_COMPILER"@ + " \""@ + posix_of(clangxx) + end)
            &&& has_slice(text, "set("@ + "CMAKE_ASM_COMPILER"@ + " \""@ + posix_of(clang) + end)
            &&& has_slice(
                text,
                "set("@ + "CMAKE_C_FLAGS"@ + " \""@ + ("${CMAKE_C_FLAGS} "@ + cflags) + end,
            )
            &&& has_slice(
                text,
                "set("@ + "CMAKE_ASM_FLAGS"@ + " \""@ + ("${CMAKE_ASM_FLAGS} "@ + cflags) + end,
            )
            &&& has_slice(
                text,
                "set("@ + "CMAKE_CXX_FLAGS"@ + " \""@ + ("${CMAKE_CXX_FLAGS} "@ + cxxflags) + end,
            )
            &&& ninja matches Some(path) ==> has_slice(
                text,
                "set(CMAKE_MAKE_PROGRAM \""@ + posix_of(path) + "\" CACHE FILEPATH \"\" FORCE)\n"@,
            )
        }),
{
    let text = toolchain_file_text(sdk_file, clang, clangxx, cflags, cxxflags, abi, ninja);
    let end = "\")\n"@;
    let l0 = "# Generated by cargo-ohos; do not edit.\n"@;
    let l1 = "set("@ + "OHOS_ARCH"@ + " \""@ + abi + end;
    let l2 = "include(\""@ + posix_of(sdk_file) + end;
    let l3 = match ninja {
        Some(path) => "set(CMAKE_MAKE_PROGRAM \""@ + posix_of(path)
            + "\" CACHE FILEPATH \"\" FORCE)\n"@,
        None => seq![],
    };
    let l4 = "set("@ + "CMAKE_C_COMPILER"@ + " \""@ + posix_of(clang) + end;
    let l5 = "set("@ + "CMAKE_CXX_COMPILER"@ + " \""@ + posix_of(clangxx) + end;
    let l6 = "set("@ + "CMAKE_ASM_COMPILER"@ + " \""@ + posix_of(clang) + end;
    let l7 = "set("@ + "CMAKE_C_FLAGS"@ + " \""@ + ("${CMAKE_C_FLAGS} "@ + cflags) + end;
    let l8 = "set("@ + "CMAKE_ASM_FLAGS"@ + " \""@ + ("${CMAKE_ASM_FLAGS} "@ + cflags) + end;
    let l9 = "set("@ + "CMAKE_CXX_FLAGS"@ + " \""@ + ("${CMAKE_CXX_FLAGS} "@ + cxxflags) + end;
    let s0 = seq![l0];
    let s1 = s0.push(l1);
    let s2 = s1.push(l2);
    let s3 = s2.push(l3);
    let s4 = s3.push(l4);
    let s5 = s4.push(l5);
    let s6 = s5.push(l6);
    let s7 = s6.push(l7);
    let s8 = s7.push(l8);
    let s9 = s8.push(l9);
    lemma_one_more(seq![], l0);
    assert(Seq::<Seq<char>>::empty().push(l0) =~= s0);
    assert(Seq::<char>::empty() + l0 =~= l0);
    lemma_one_more(s0, l1);
    lemma_one_more(s1, l2);
    lemma_one_more(s2, l3);
    lemma_one_more(s3, l4);
    lemma_one_more(s4, l5);
    lemma_one_more(s5, l6);
    lemma_one_more(s6, l7);
    lemma_one_more(s7, l8);
    lemma_one_more(s8, l9);
    assert(text == all_of(s9));
    lemma_lines_are_slices(s9);
    assert(s9[1] == l1 && s9[2] == l2 && s9[3] == l3 && s9[4] == l4 && s9[5] == l5);
    assert(s9[6] == l6 && s9[7] == l7 && s9[8] == l8 && s9[9] == l9);
}

/// The lines, one after the other.
pub open spec fn all_of(lines: Seq<Seq<char>>) -> Seq<char>
    decreases lines.len(),
{
    if lines.len() == 0 {
        seq![]
    } else {
        all_of(lines.drop_last()) + lines.last()
    }
}

proof fn lemma_one_more(lines: Seq<Seq<char>>, line: Seq<char>)
    ensures
        all_of(lines.push(line)) == all_of(lines) + line,
        lines.len() == 0 ==> all_of(lines) == Seq::<char>::empty(),
{
    assert(lines.push(line).drop_last() =~= lines);
}

proof fn lemma_lines_are_slices(lines: Seq<Seq<char>>)
    ensures
        forall|i: int| 0 <= i < lines.len() ==> has_slice(all_of(lines), #[trigger] lines[i]),
    decreases lines.len(),
{
    if lines.len() > 0 {
        let front = lines.drop_last();
        let before = all_of(front);
        let last = lines.last();
        lemma_lines_are_slices(front);
        assert forall|i: int| 0 <= i < lines.len() implies has_slice(
            all_of(lines),
            #[trigger] lines[i],
        ) by {
            if i < front.len() {
                assert(front[i] == lines[i]);
                law_slices(before, seq![], lines[i], seq![]);
                let (a, b) = choose|a: Seq<char>, b: Seq<char>|
                    before == #[trigger] (a + lines[i] + b);
                assert(before + last =~= a + lines[i] + (b + last));
                law_slices(seq![], a, lines[i], b + last);
            } else {
                assert(before + last + seq![] =~= before + last);
                law_slices(seq![], before, last, seq![]);
            }
        }
    }
}

/// The file of a target goes below the directory of generated files, into one that is named after the
/// target and what the file holds: by the first digits of its digest.
pub proof fn law_the_place_of_the_file(
    platform: Platform,
    directory: Seq<char>,
    sdk_file: Seq<char>,
    clang: Seq<char>,
    clangxx: Seq<char>,
    cflags: Seq<char>,
    cxxflags: Seq<char>,
    target: Target,
    ninja: Option<Seq<char>>,
    generated: CmakeToolchain,
)
    requires
        is_toolchain_file(sdk_file, clang, clangxx, cflags, cxxflags, target, ninja, generated),
    ensures
        ({
            let digits = hex_of(sha256_of(vstd::utf8::encode_utf8(generated.contents@))).take(12);
            &&& toolchain_file_at(platform, directory, generated) == joined_path(
                platform,
                joined_path(platform, directory, target.clang_triple@ + "-"@ + digits),
                "ohos.toolchain.cmake"@,
            )
            &&& generated.directory@ == generated_name(target.clang_triple@, generated.contents@)
        }),
{
}

/// Whatever was there before, the file holds its contents once it is written where it has to be; and
/// then it is not written again.
pub proof fn law_the_file_is_kept_up_to_date(existing: Option<Seq<char>>, contents: Seq<char>)
    ensures
        ({
            let kept = if must_write(existing, contents) {
                Some(contents)
            } else {
                existing
            };
            &&& kept == Some(contents)
            &&& !must_write(kept, contents)
        }),
{
}

} // verus!
