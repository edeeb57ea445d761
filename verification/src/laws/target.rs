//! Laws of the targets and their spellings.

use crate::target::{abi_of, arch_named, extra_cflags_of, Arch, Target};
use vstd::prelude::*;

verus! {

/// The word an architecture's triples begin with.
pub open spec fn first_word(arch: Arch) -> Seq<char> {
    match arch {
        Arch::Aarch64 => "aarch64"@,
        Arch::Armv7 => "armv7"@,
        Arch::X86_64 => "x86_64"@,
        Arch::LoongArch64 => "loongarch64"@,
    }
}

proof fn lemma_spellings()
    ensures
        "aarch64-unknown-linux-ohos"@ == "aarch64"@ + "-unknown-linux-ohos"@,
        "armv7-unknown-linux-ohos"@ == "armv7"@ + "-unknown-linux-ohos"@,
        "x86_64-unknown-linux-ohos"@ == "x86_64"@ + "-unknown-linux-ohos"@,
        "loongarch64-unknown-linux-ohos"@ == "loongarch64"@ + "-unknown-linux-ohos"@,
        "aarch64-linux-ohos"@ == "aarch64"@ + "-linux-ohos"@,
        "armv7-linux-ohos"@ == "armv7"@ + "-linux-ohos"@,
        "x86_64-linux-ohos"@ == "x86_64"@ + "-linux-ohos"@,
        "loongarch64-linux-ohos"@ == "loongarch64"@ + "-linux-ohos"@,
        "arm-linux-ohos"@ == "arm"@ + "-linux-ohos"@,
{
    reveal_strlit("aarch64");
    reveal_strlit("armv7");
    reveal_strlit("x86_64");
    reveal_strlit("loongarch64");
    reveal_strlit("arm");
    reveal_strlit("-unknown-linux-ohos");
    reveal_strlit("-linux-ohos");
    reveal_strlit("aarch64-unknown-linux-ohos");
    reveal_strlit("armv7-unknown-linux-ohos");
    reveal_strlit("x86_64-unknown-linux-ohos");
    reveal_strlit("loongarch64-unknown-linux-ohos");
    reveal_strlit("aarch64-linux-ohos");
    reveal_strlit("armv7-linux-ohos");
    reveal_strlit("x86_64-linux-ohos");
    reveal_strlit("loongarch64-linux-ohos");
    reveal_strlit("arm-linux-ohos");
    assert("aarch64-unknown-linux-ohos"@ =~= "aarch64"@ + "-unknown-linux-ohos"@);
    assert("armv7-unknown-linux-ohos"@ =~= "armv7"@ + "-unknown-linux-ohos"@);
    assert("x86_64-unknown-linux-ohos"@ =~= "x86_64"@ + "-unknown-linux-ohos"@);
    assert("loongarch64-unknown-linux-ohos"@ =~= "loongarch64"@ + "-unknown-linux-ohos"@);
    assert("aarch64-linux-ohos"@ =~= "aarch64"@ + "-linux-ohos"@);
    assert("armv7-linux-ohos"@ =~= "armv7"@ + "-linux-ohos"@);
    assert("x86_64-linux-ohos"@ =~= "x86_64"@ + "-linux-ohos"@);
    assert("loongarch64-linux-ohos"@ =~= "loongarch64"@ + "-linux-ohos"@);
    assert("arm-linux-ohos"@ =~= "arm"@ + "-linux-ohos"@);
}

/// The spellings of a target go together: rustc and clang name the same architecture, in front of what
/// all targets have in common, and the libraries are below the name clang has for it, but for 32-bit
/// Arm, whose directory does not say which Arm.
pub proof fn law_spellings_go_together(target: Target, arch: Arch)
    requires
        target.is_for(arch),
    ensures
        target.arch == arch,
        target.rust_triple@ == first_word(arch) + "-unknown-linux-ohos"@,
        target.clang_triple@ == first_word(arch) + "-linux-ohos"@,
        arch != Arch::Armv7 ==> target.lib_dir@ == target.clang_triple@,
        arch == Arch::Armv7 ==> target.lib_dir@ == "arm"@ + "-linux-ohos"@,
{
    lemma_spellings();
}

proof fn lemma_names_differ(spec: Seq<char>)
    ensures
        spec == "aarch64"@ || spec == "arm64"@ || spec == "aarch64-unknown-linux-ohos"@ ==> spec
            != "armv7"@ && spec != "arm"@ && spec != "armv7a"@ && spec
            != "armv7-unknown-linux-ohos"@ && spec != "x86_64"@ && spec != "x64"@ && spec != "amd64"@
            && spec != "x86_64-unknown-linux-ohos"@ && spec != "loongarch64"@ && spec
            != "loongarch64-unknown-linux-ohos"@,
        spec == "armv7"@ || spec == "arm"@ || spec == "armv7a"@ || spec == "armv7-unknown-linux-ohos"@
            ==> spec != "x86_64"@ && spec != "x64"@ && spec != "amd64"@ && spec
            != "x86_64-unknown-linux-ohos"@ && spec != "loongarch64"@ && spec
            != "loongarch64-unknown-linux-ohos"@,
        spec == "x86_64"@ || spec == "x64"@ || spec == "amd64"@ || spec == "x86_64-unknown-linux-ohos"@
            ==> spec != "loongarch64"@ && spec != "loongarch64-unknown-linux-ohos"@,
{
    reveal_strlit("aarch64");
    reveal_strlit("arm64");
    reveal_strlit("aarch64-unknown-linux-ohos");
    reveal_strlit("armv7");
    reveal_strlit("arm");
    reveal_strlit("armv7a");
    reveal_strlit("armv7-unknown-linux-ohos");
    reveal_strlit("x86_64");
    reveal_strlit("x64");
    reveal_strlit("amd64");
    reveal_strlit("x86_64-unknown-linux-ohos");
    reveal_strlit("loongarch64");
    reveal_strlit("loongarch64-unknown-linux-ohos");
    assert("aarch64"@[1] == 'a' && "aarch64-unknown-linux-ohos"@[1] == 'a');
    assert("arm64"@[3] == '6' && "armv7"@[3] == 'v' && "armv7a"@[3] == 'v'
        && "armv7-unknown-linux-ohos"@[3] == 'v' && "arm"@.len() == 3);
    assert("armv7"@[1] == 'r' && "arm"@[1] == 'r' && "armv7a"@[1] == 'r' && "arm64"@[1] == 'r'
        && "armv7-unknown-linux-ohos"@[1] == 'r');
    assert("amd64"@[1] == 'm' && "x86_64"@[0] == 'x' && "x64"@[0] == 'x'
        && "x86_64-unknown-linux-ohos"@[0] == 'x');
    assert("loongarch64"@[0] == 'l' && "loongarch64-unknown-linux-ohos"@[0] == 'l');
    assert("aarch64"@[0] == 'a' && "arm64"@[0] == 'a' && "aarch64-unknown-linux-ohos"@[0] == 'a'
        && "armv7"@[0] == 'a' && "arm"@[0] == 'a' && "armv7a"@[0] == 'a'
        && "armv7-unknown-linux-ohos"@[0] == 'a' && "amd64"@[0] == 'a');
}

/// A name stands for an architecture exactly if it is the word its triples begin with, the triple rustc
/// has for it, or one of the other names that are in use for it.
pub proof fn law_names_of_architectures(spec: Seq<char>, arch: Arch)
    ensures
        arch_named(spec) == Some(arch) <==> {
            ||| spec == first_word(arch)
            ||| spec == first_word(arch) + "-unknown-linux-ohos"@
            ||| arch == Arch::Aarch64 && spec == "arm64"@
            ||| arch == Arch::Armv7 && (spec == "arm"@ || spec == "armv7a"@)
            ||| arch == Arch::X86_64 && (spec == "x64"@ || spec == "amd64"@)
        },
{
    lemma_spellings();
    lemma_names_differ(spec);
}

/// Only 32-bit Arm needs flags of its own: the instruction set, how floats are passed, and that of the
/// two instruction encodings the shorter is used.
pub proof fn law_only_armv7_has_flags_of_its_own(arch: Arch)
    ensures
        extra_cflags_of(arch).len() == 0 <==> arch != Arch::Armv7,
        arch == Arch::Armv7 ==> {
            &&& extra_cflags_of(arch).len() == 4
            &&& extra_cflags_of(arch).contains("-march=armv7-a"@)
            &&& extra_cflags_of(arch).contains("-mfloat-abi=softfp"@)
            &&& extra_cflags_of(arch).contains("-mtune=generic-armv7-a"@)
            &&& extra_cflags_of(arch).contains("-mthumb"@)
        },
{
    if arch == Arch::Armv7 {
        let flags = extra_cflags_of(arch);
        assert(flags[0] == "-march=armv7-a"@ && flags[1] == "-mfloat-abi=softfp"@ && flags[2]
            == "-mtune=generic-armv7-a"@ && flags[3] == "-mthumb"@);
    }
}

/// The SDK names the 64-bit architectures without a calling convention of their own as their triples
/// do, and the two Arm architectures by the calling convention.
pub proof fn law_names_of_calling_conventions(arch: Arch)
    ensures
        arch == Arch::X86_64 || arch == Arch::LoongArch64 ==> abi_of(arch) == first_word(arch),
        arch == Arch::Aarch64 ==> abi_of(arch) == "arm64-v8a"@,
        arch == Arch::Armv7 ==> abi_of(arch) == "armeabi-v7a"@,
{
}

/// The name of a target as a part of the names of variables: `_` for `-`, and in upper case where cargo
/// looks for it so; nothing else changes.
pub proof fn law_names_in_variables(target: Target, arch: Arch, i: int)
    requires
        target.is_for(arch),
        0 <= i < target.rust_triple@.len(),
    ensures
        target.rust_underscored().len() == target.rust_triple@.len(),
        target.rust_upper().len() == target.rust_triple@.len(),
        ({
            let c = target.rust_triple@[i];
            &&& target.rust_underscored()[i] == if c == '-' {
                '_'
            } else {
                c
            }
            &&& c == '-' ==> target.rust_upper()[i] == '_'
            &&& 'a' <= c <= 'z' ==> target.rust_upper()[i] as int == c as int - 'a' as int + 'A' as int
            &&& c != '-' && !('a' <= c <= 'z') ==> target.rust_upper()[i] == c
        }),
{
    reveal_strlit("_");
    assert("_"@ =~= seq!['_']);
    reveal_strlit("aarch64-unknown-linux-ohos");
    reveal_strlit("armv7-unknown-linux-ohos");
    reveal_strlit("x86_64-unknown-linux-ohos");
    reveal_strlit("loongarch64-unknown-linux-ohos");
    let name = target.rust_underscored();
    crate::laws::text::law_replacing_a_character(target.rust_triple@, '-', '_');
    assert forall|k: int| 0 <= k < name.len() implies #[trigger] name[k] <= '\u{7f}' by {
        assert(name[k] == if target.rust_triple@[k] == '-' {
            '_'
        } else {
            target.rust_triple@[k]
        });
    }
    assert(crate::text::is_ascii_text(name));
    crate::laws::text::law_case(name, i);
}

} // verus!
