//! The OpenHarmony targets and their spellings.

use crate::text::{
    ascii_uppered, equal, is_ascii_text, replace_char, replaced, texts, to_uppercase,
    uppercased,
};
use vstd::prelude::*;

verus! {

#[derive(Debug, Clone, Copy, PartialEq, Eq, Structural)]
pub enum Arch {
    Aarch64,
    Armv7,
    X86_64,
    LoongArch64,
}

#[derive(Debug, PartialEq, Eq)]
pub struct Target {
    pub rust_triple: String,
    pub clang_triple: String,
    pub lib_dir: String,
    pub arch: Arch,
}

/// A target name that is none of the known ones.
#[derive(Debug)]
pub struct UnknownTarget(pub String);

pub open spec fn rust_triple_of(arch: Arch) -> Seq<char> {
    match arch {
        Arch::Aarch64 => "aarch64-unknown-linux-ohos"@,
        Arch::Armv7 => "armv7-unknown-linux-ohos"@,
        Arch::X86_64 => "x86_64-unknown-linux-ohos"@,
        Arch::LoongArch64 => "loongarch64-unknown-linux-ohos"@,
    }
}

pub open spec fn clang_triple_of(arch: Arch) -> Seq<char> {
    match arch {
        Arch::Aarch64 => "aarch64-linux-ohos"@,
        Arch::Armv7 => "armv7-linux-ohos"@,
        Arch::X86_64 => "x86_64-linux-ohos"@,
        Arch::LoongArch64 => "loongarch64-linux-ohos"@,
    }
}

/// The directory of the target's libraries: the clang triple, but for 32-bit Arm.
pub open spec fn lib_dir_of(arch: Arch) -> Seq<char> {
    match arch {
        Arch::Armv7 => "arm-linux-ohos"@,
        _ => clang_triple_of(arch),
    }
}

/// The name the SDK's cmake toolchain file has for the architecture.
pub open spec fn abi_of(arch: Arch) -> Seq<char> {
    match arch {
        Arch::Aarch64 => "arm64-v8a"@,
        Arch::Armv7 => "armeabi-v7a"@,
        Arch::X86_64 => "x86_64"@,
        Arch::LoongArch64 => "loongarch64"@,
    }
}

/// The architecture a target name stands for: its triple, or one of its short names.
pub open spec fn arch_named(spec: Seq<char>) -> Option<Arch> {
    if spec == "aarch64"@ || spec == "arm64"@ || spec == rust_triple_of(Arch::Aarch64) {
        Some(Arch::Aarch64)
    } else if spec == "armv7"@ || spec == "arm"@ || spec == "armv7a"@ || spec == rust_triple_of(
        Arch::Armv7,
    ) {
        Some(Arch::Armv7)
    } else if spec == "x86_64"@ || spec == "x64"@ || spec == "amd64"@ || spec == rust_triple_of(
        Arch::X86_64,
    ) {
        Some(Arch::X86_64)
    } else if spec == "loongarch64"@ || spec == rust_triple_of(Arch::LoongArch64) {
        Some(Arch::LoongArch64)
    } else {
        None
    }
}

pub open spec fn extra_cflags_of(arch: Arch) -> Seq<Seq<char>> {
    match arch {
        Arch::Armv7 => seq![
            "-march=armv7-a"@,
            "-mfloat-abi=softfp"@,
            "-mtune=generic-armv7-a"@,
            "-mthumb"@,
        ],
        _ => seq![],
    }
}

impl Target {
    /// Whether this is the target of `arch`.
    pub open spec fn is_for(self, arch: Arch) -> bool {
        &&& self.arch == arch
        &&& self.rust_triple@ == rust_triple_of(arch)
        &&& self.clang_triple@ == clang_triple_of(arch)
        &&& self.lib_dir@ == lib_dir_of(arch)
    }

    /// The target `spec` names.
    pub fn parse(spec: &str) -> (res: Result<Self, UnknownTarget>)
        ensures
            match res {
                Ok(target) => arch_named(spec@) == Some(target.arch) && target.is_for(target.arch),
                Err(unknown) => arch_named(spec@) is None && unknown.0@ == spec@,
            },
    {
        let arch = if equal(spec, "aarch64") || equal(spec, "arm64") || equal(
            spec,
            "aarch64-unknown-linux-ohos",
        ) {
            Arch::Aarch64
        } else if equal(spec, "armv7") || equal(spec, "arm") || equal(spec, "armv7a") || equal(
            spec,
            "armv7-unknown-linux-ohos",
        ) {
            Arch::Armv7
        } else if equal(spec, "x86_64") || equal(spec, "x64") || equal(spec, "amd64") || equal(
            spec,
            "x86_64-unknown-linux-ohos",
        ) {
            Arch::X86_64
        } else if equal(spec, "loongarch64") || equal(spec, "loongarch64-unknown-linux-ohos") {
            Arch::LoongArch64
        } else {
            return Err(UnknownTarget(spec.to_owned()));
        };
        Ok(Self::from_arch(arch))
    }

    pub fn from_arch(arch: Arch) -> (res: Self)
        ensures
            res.is_for(arch),
    {
        let (rust, clang, lib) = match arch {
            Arch::Aarch64 => (
                "aarch64-unknown-linux-ohos",
                "aarch64-linux-ohos",
                "aarch64-linux-ohos",
            ),
            Arch::Armv7 => ("armv7-unknown-linux-ohos", "armv7-linux-ohos", "arm-linux-ohos"),
            Arch::X86_64 => ("x86_64-unknown-linux-ohos", "x86_64-linux-ohos", "x86_64-linux-ohos"),
            Arch::LoongArch64 => (
                "loongarch64-unknown-linux-ohos",
                "loongarch64-linux-ohos",
                "loongarch64-linux-ohos",
            ),
        };
        Target {
            rust_triple: rust.to_owned(),
            clang_triple: clang.to_owned(),
            lib_dir: lib.to_owned(),
            arch,
        }
    }

    pub open spec fn rust_underscored(self) -> Seq<char> {
        replaced(self.rust_triple@, '-', "_"@)
    }

    /// The rust triple as a part of a variable name.
    pub fn rust_triple_underscored(&self) -> (res: String)
        ensures
            res@ == self.rust_underscored(),
    {
        replace_char(self.rust_triple.as_str(), '-', "_")
    }

    pub open spec fn rust_upper(self) -> Seq<char> {
        let name = self.rust_underscored();
        if is_ascii_text(name) {
            ascii_uppered(name)
        } else {
            uppercased(name)
        }
    }

    /// The rust triple as a part of an upper-case variable name.
    pub fn rust_triple_upper(&self) -> (res: String)
        ensures
            res@ == self.rust_upper(),
    {
        to_uppercase(self.rust_triple_underscored().as_str())
    }

    pub fn clang_triple_underscored(&self) -> (res: String)
        ensures
            res@ == replaced(self.clang_triple@, '-', "_"@),
    {
        replace_char(self.clang_triple.as_str(), '-', "_")
    }

    /// The compiler flags of the architecture itself.
    pub fn extra_cflags(&self) -> (res: Vec<String>)
        ensures
            texts(res@) == extra_cflags_of(self.arch),
    {
        let mut res: Vec<String> = Vec::new();
        if self.arch == Arch::Armv7 {
            res.push("-march=armv7-a".to_owned());
            res.push("-mfloat-abi=softfp".to_owned());
            res.push("-mtune=generic-armv7-a".to_owned());
            res.push("-mthumb".to_owned());
        }
        proof {
            assert(texts(res@) =~= extra_cflags_of(self.arch));
        }
        res
    }

    /// The SDK's name for the architecture.
    pub fn ohos_abi(&self) -> (res: &'static str)
        ensures
            res@ == abi_of(self.arch),
    {
        match self.arch {
            Arch::Aarch64 => "arm64-v8a",
            Arch::Armv7 => "armeabi-v7a",
            Arch::X86_64 => "x86_64",
            Arch::LoongArch64 => "loongarch64",
        }
    }
}

impl Clone for Target {
    fn clone(&self) -> (res: Self)
        ensures
            res == *self,
    {
        Target {
            rust_triple: self.rust_triple.clone(),
            clang_triple: self.clang_triple.clone(),
            lib_dir: self.lib_dir.clone(),
            arch: self.arch,
        }
    }
}

impl UnknownTarget {
    pub open spec fn text(self) -> Seq<char> {
        "`"@ + self.0@
            + "` is not a known OpenHarmony target. Expected one of `aarch64-unknown-linux-ohos`, `armv7-unknown-linux-ohos`, `x86_64-unknown-linux-ohos`, `loongarch64-unknown-linux-ohos`, or a short architecture name such as `aarch64`."@
    }

    /// What to tell the user.
    pub fn message(&self) -> (res: String)
        ensures
            res@ == self.text(),
    {
        let mut res = "`".to_owned();
        res.append(self.0.as_str());
        res.append(
            "` is not a known OpenHarmony target. Expected one of `aarch64-unknown-linux-ohos`, `armv7-unknown-linux-ohos`, `x86_64-unknown-linux-ohos`, `loongarch64-unknown-linux-ohos`, or a short architecture name such as `aarch64`.",
        );
        res
    }
}

/// The name of every target is accepted as a name of that target.
pub proof fn law_triple_names_its_target(arch: Arch)
    ensures
        arch_named(rust_triple_of(arch)) == Some(arch),
{
    reveal_strlit("aarch64");
    reveal_strlit("arm64");
    reveal_strlit("aarch64-unknown-linux-ohos");
    reveal_strlit("armv7");
    reveal_strlit("arm");
    reveal_strlit("armv7a");
    reveal_strlit("armv7-unknown-linux-ohos");
    reveal_strlit("x86_64");
    reveal_strlit("x64");
    reveal_strlit("amd64");
    reveal_strlit("x86_64-unknown-linux-ohos");
    reveal_strlit("loongarch64");
    reveal_strlit("loongarch64-unknown-linux-ohos");
    assert("armv7-unknown-linux-ohos"@.len() == 24);
    assert("aarch64-unknown-linux-ohos"@.len() == 26);
    assert("x86_64-unknown-linux-ohos"@.len() == 25);
    assert("loongarch64-unknown-linux-ohos"@.len() == 30);
}

/// The library directory has the spelling of the clang triple on every architecture but one.
pub proof fn law_only_armv7_spells_its_lib_dir_differently(arch: Arch)
    ensures
        lib_dir_of(arch) == clang_triple_of(arch) <==> arch != Arch::Armv7,
{
    reveal_strlit("armv7-linux-ohos");
    reveal_strlit("arm-linux-ohos");
    assert("armv7-linux-ohos"@.len() == 16);
    assert("arm-linux-ohos"@.len() == 14);
}

} // verus!
