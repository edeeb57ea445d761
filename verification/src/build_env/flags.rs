//! The compiler and linker flags of a target.

use crate::path::{join, join2, joined_path, posix, posix_of, Platform};
use crate::sdk::Sdk;
use crate::target::{extra_cflags_of, Target};
use crate::text::{cat2, copies, texts};
use vstd::prelude::*;

verus! {

#[derive(Debug)]
pub struct Flags {
    pub cflags: Vec<String>,
    pub cxxflags: Vec<String>,
    pub ldflags: Vec<String>,
    pub bindgen: Vec<String>,
    pub rustflags: Vec<String>,
}

/// The flags C and C++ code for the target is compiled with.
pub open spec fn cflags_of(sdk: Sdk, target: Target) -> Seq<Seq<char>> {
    seq![
        "--target="@ + target.clang_triple@,
        "--sysroot="@ + posix_of(sdk.sysroot@),
        "-D__MUSL__"@,
    ] + extra_cflags_of(target.arch)
}

pub open spec fn ldflags_of() -> Seq<Seq<char>> {
    seq!["-fuse-ld=lld"@, "-Wl,--build-id"@]
}

/// The flags bindgen hands to clang: those of C++, and the headers of the target.
pub open spec fn bindgen_of(platform: Platform, sdk: Sdk, target: Target) -> Seq<Seq<char>> {
    let headers = joined_path(
        platform,
        joined_path(platform, joined_path(platform, sdk.sysroot@, "usr"@), "include"@),
        target.lib_dir@,
    );
    cflags_of(sdk, target).push("-I"@ + posix_of(headers))
}

/// The linker arguments rustc passes on: the linker flags, then the compiler flags.
pub open spec fn rustflags_of(sdk: Sdk, target: Target) -> Seq<Seq<char>> {
    (ldflags_of() + cflags_of(sdk, target)).map_values(|flag: Seq<char>| "-Clink-arg="@ + flag)
}

/// The flags for building with `sdk` for `target`.
pub open spec fn flags_are(platform: Platform, sdk: Sdk, target: Target, flags: Flags) -> bool {
    &&& texts(flags.cflags@) == cflags_of(sdk, target)
    &&& texts(flags.cxxflags@) == cflags_of(sdk, target)
    &&& texts(flags.ldflags@) == ldflags_of()
    &&& texts(flags.bindgen@) == bindgen_of(platform, sdk, target)
    &&& texts(flags.rustflags@) == rustflags_of(sdk, target)
}

fn append_all(to: &mut Vec<String>, more: &Vec<String>)
    ensures
        texts(final(to)@) == texts(old(to)@) + texts(more@),
{
    let ghost before = texts(to@);
    let mut i: usize = 0;
    proof {
        assert(before + texts(more@).take(0) =~= before);
    }
    while i < more.len()
        invariant
            i <= more.len(),
            texts(to@) == before + texts(more@).take(i as int),
        decreases more.len() - i,
    {
        let ghost was = texts(to@);
        to.push(more[i].clone());
        proof {
            assert(texts(to@) =~= was.push(more@[i as int]@));
            assert(texts(more@).take(i + 1) =~= texts(more@).take(i as int).push(more@[i as int]@));
            assert(before + texts(more@).take(i + 1) =~= was.push(more@[i as int]@));
        }
        i += 1;
    }
    proof {
        assert(texts(more@).take(i as int) =~= texts(more@));
    }
}

fn link_args(flags: &Vec<String>) -> (res: Vec<String>)
    ensures
        texts(res@) == texts(flags@).map_values(|flag: Seq<char>| "-Clink-arg="@ + flag),
{
    let mut res: Vec<String> = Vec::new();
    let mut i: usize = 0;
    while i < flags.len()
        invariant
            i <= flags.len(),
            res.len() == i,
            forall|k: int| 0 <= k < i ==> (#[trigger] res@[k])@ == "-Clink-arg="@ + flags@[k]@,
        decreases flags.len() - i,
    {
        res.push(cat2("-Clink-arg=", flags[i].as_str()));
        i += 1;
    }
    proof {
        assert(texts(res@) =~= texts(flags@).map_values(
            |flag: Seq<char>| "-Clink-arg="@ + flag,
        ));
    }
    res
}

impl Flags {
    /// The flags for building with `sdk` for `target`.
    pub fn new(platform: Platform, sdk: &Sdk, target: &Target) -> (res: Self)
        ensures
            flags_are(platform, *sdk, *target, res),
    {
        let mut cflags: Vec<String> = Vec::new();
        cflags.push(cat2("--target=", target.clang_triple.as_str()));
        cflags.push(cat2("--sysroot=", posix(sdk.sysroot.as_str()).as_str()));
        // The SDK's clang wrapper defines this.
        cflags.push("-D__MUSL__".to_owned());
        append_all(&mut cflags, &target.extra_cflags());
        proof {
            assert(texts(cflags@) =~= cflags_of(*sdk, *target));
        }

        let mut ldflags: Vec<String> = Vec::new();
        ldflags.push("-fuse-ld=lld".to_owned());
        ldflags.push("-Wl,--build-id".to_owned());
        proof {
            assert(texts(ldflags@) =~= ldflags_of());
        }

        let mut bindgen = copies(&cflags);
        let above = join2(platform, sdk.sysroot.as_str(), "usr", "include");
        let headers = join(platform, above.as_str(), target.lib_dir.as_str());
        bindgen.push(cat2("-I", posix(headers.as_str()).as_str()));
        proof {
            assert(texts(bindgen@) =~= bindgen_of(platform, *sdk, *target));
        }

        let mut linked = copies(&ldflags);
        append_all(&mut linked, &cflags);
        let rustflags = link_args(&linked);
        let cxxflags = copies(&cflags);
        Flags { cflags, cxxflags, ldflags, bindgen, rustflags }
    }
}

} // verus!
