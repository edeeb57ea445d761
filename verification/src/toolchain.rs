//! The LLVM toolchain native code is built with.

use crate::build_env::Error;
use crate::ordered::StringSet;
use crate::path::{join, join2, joined_path, program_of, program_path, Platform};
use crate::sdk::Sdk;
use crate::sort::{first_index, lemma_first_index};
use crate::target::Target;
use crate::text::{contains, has_slice, starts_with, texts};
use vstd::prelude::*;

verus! {

/// The soname of the C++ standard library an external toolchain links against. The SDK's `libc++.so`
/// is a linker script selecting `libc++_shared.so` instead.
pub const LIBCXX_SONAME: &'static str = "libc++.so";

#[derive(Debug)]
pub struct Toolchain {
    /// The `llvm` directory the tools were resolved from.
    pub root: String,
    /// Whether `root` is a toolchain of its own rather than the SDK's.
    pub external: bool,
    pub clang: String,
    pub clangxx: String,
    pub ar: String,
    pub ranlib: String,
    pub strip: String,
    pub objcopy: String,
    pub readelf: String,
    pub libclang_dir: String,
}

/// A shared library of the toolchain which linked output depends on at runtime, but which no
/// OpenHarmony system provides, so the application has to bundle it.
#[derive(Debug)]
pub struct RuntimeLibrary {
    pub path: String,
    /// The `DT_NEEDED` entry this library satisfies.
    pub soname: String,
    pub kind: RuntimeLibraryKind,
}

#[derive(Debug, Clone, Copy, PartialEq, Eq, Structural)]
pub enum RuntimeLibraryKind {
    CxxStdlib,
}

/// What was found on disk where a toolchain is looked for.
pub struct Found {
    /// The canonical path of the toolchain that replaces the SDK's, or why there is none.
    pub canonical_llvm: Result<String, String>,
    /// The paths that are files.
    pub files: StringSet,
    /// The paths that are directories.
    pub directories: StringSet,
    /// The names in the toolchain's `lib` directory, none if it cannot be read.
    pub lib_entries: Vec<String>,
    /// The names in the toolchain's `bin` directory, none if it cannot be read.
    pub bin_entries: Vec<String>,
}

/// The directory the tools are in.
pub open spec fn bin_of(platform: Platform, root: Seq<char>) -> Seq<char> {
    joined_path(platform, root, "bin"@)
}

/// Where the tool `name` is.
pub open spec fn tool_path(platform: Platform, root: Seq<char>, name: Seq<char>) -> Seq<char> {
    program_of(platform, joined_path(platform, bin_of(platform, root), name))
}

/// The tools every toolchain has, in the order in which they are looked for.
pub open spec fn tool_names() -> Seq<Seq<char>> {
    seq![
        "clang"@,
        "clang++"@,
        "llvm-ar"@,
        "llvm-ranlib"@,
        "llvm-strip"@,
        "llvm-objcopy"@,
        "llvm-readelf"@,
    ]
}

/// Where the headers are by which an OpenHarmony toolchain is recognised.
pub open spec fn libcxx_headers_of(platform: Platform, root: Seq<char>) -> Seq<char> {
    joined_path(platform, joined_path(platform, root, "include"@), "libcxx-ohos"@)
}

/// The extension of shared libraries.
pub open spec fn shared_library_extension(platform: Platform) -> Seq<char> {
    match platform {
        Platform::Windows => ".dll"@,
        Platform::Macos => ".dylib"@,
        Platform::Linux => ".so"@,
    }
}

/// Whether `name` is a libclang shared library.
pub open spec fn is_libclang(platform: Platform, name: Seq<char>) -> bool {
    "libclang."@.is_prefix_of(name) && has_slice(name, shared_library_extension(platform))
}

/// Whether one of the names is a libclang shared library.
pub open spec fn has_libclang(platform: Platform, names: Seq<Seq<char>>) -> bool {
    exists|i: int| 0 <= i < names.len() && is_libclang(platform, #[trigger] names[i])
}

/// The directory with libclang: `lib`, or on Windows, where the library is installed next to the
/// programs, also `bin`.
pub open spec fn libclang_dir_of(platform: Platform, root: Seq<char>, found: Found) -> Option<Seq<char>> {
    if has_libclang(platform, texts(found.lib_entries@)) {
        Some(joined_path(platform, root, "lib"@))
    } else if platform == Platform::Windows && has_libclang(platform, texts(found.bin_entries@)) {
        Some(joined_path(platform, root, "bin"@))
    } else {
        None
    }
}

/// The toolchain in `root`, or the first thing it lacks.
pub open spec fn toolchain_in(
    platform: Platform,
    root: Seq<char>,
    external: bool,
    found: Found,
    res: Result<Toolchain, Error>,
) -> bool {
    let names = tool_names();
    let files = found.files@;
    let missing = first_index(
        names,
        |name: Seq<char>| !files.contains(tool_path(platform, root, name)),
    ) as int;
    if missing < names.len() {
        res matches Err(Error::MissingTool { path }) && path@ == tool_path(
            platform,
            root,
            names[missing],
        )
    } else {
        match libclang_dir_of(platform, root, found) {
            None => res matches Err(Error::MissingLibclang { path }) && path@ == joined_path(
                platform,
                root,
                "lib"@,
            ),
            Some(dir) => {
                &&& res matches Ok(toolchain)
                &&& toolchain.root@ == root
                &&& toolchain.external == external
                &&& toolchain.clang@ == tool_path(platform, root, "clang"@)
                &&& toolchain.clangxx@ == tool_path(platform, root, "clang++"@)
                &&& toolchain.ar@ == tool_path(platform, root, "llvm-ar"@)
                &&& toolchain.ranlib@ == tool_path(platform, root, "llvm-ranlib"@)
                &&& toolchain.strip@ == tool_path(platform, root, "llvm-strip"@)
                &&& toolchain.objcopy@ == tool_path(platform, root, "llvm-objcopy"@)
                &&& toolchain.readelf@ == tool_path(platform, root, "llvm-readelf"@)
                &&& toolchain.libclang_dir@ == dir
            },
        }
    }
}

/// The toolchain to use: the one at `llvm`, if it is an OpenHarmony one, or else the SDK's.
pub open spec fn resolve_is(
    platform: Platform,
    sdk: Sdk,
    llvm: Option<String>,
    found: Found,
    res: Result<Toolchain, Error>,
) -> bool {
    match llvm {
        None => toolchain_in(platform, sdk.llvm_root@, false, found, res),
        Some(given) => match found.canonical_llvm {
            Err(error) => res matches Err(Error::Io { path, source }) && path@ == given@ && source@
                == error@,
            Ok(root) => if !found.directories@.contains(libcxx_headers_of(platform, root@)) {
                res matches Err(Error::InvalidToolchain { path }) && path@ == root@
            } else {
                toolchain_in(platform, root@, true, found, res)
            },
        },
    }
}

/// Whether `root` has every tool and libclang.
pub open spec fn complete(platform: Platform, root: Seq<char>, found: Found) -> bool {
    let files = found.files@;
    &&& forall|i: int|
        0 <= i < tool_names().len() ==> files.contains(
            tool_path(platform, root, #[trigger] tool_names()[i]),
        )
    &&& libclang_dir_of(platform, root, found) is Some
}

/// Whether there is a toolchain to use.
pub open spec fn resolvable(platform: Platform, sdk: Sdk, llvm: Option<String>, found: Found) -> bool {
    match llvm {
        None => complete(platform, sdk.llvm_root@, found),
        Some(_) => {
            &&& found.canonical_llvm matches Ok(root)
            &&& found.directories@.contains(libcxx_headers_of(platform, root@))
            &&& complete(platform, root@, found)
        },
    }
}

/// The directory of the toolchain to use.
pub open spec fn root_of(sdk: Sdk, llvm: Option<String>, found: Found) -> Seq<char> {
    match llvm {
        None => sdk.llvm_root@,
        Some(_) => found.canonical_llvm->Ok_0@,
    }
}

/// Resolving succeeds exactly if there is a toolchain to use, and then uses it.
pub proof fn law_resolving_succeeds_if_it_can(
    platform: Platform,
    sdk: Sdk,
    llvm: Option<String>,
    found: Found,
    res: Result<Toolchain, Error>,
)
    requires
        resolve_is(platform, sdk, llvm, found, res),
    ensures
        res is Ok <==> resolvable(platform, sdk, llvm, found),
        res matches Ok(toolchain) ==> toolchain.root@ == root_of(sdk, llvm, found)
            && toolchain.external == llvm is Some,
{
    let files = found.files@;
    let root = root_of(sdk, llvm, found);
    let names = tool_names();
    let missing = |name: Seq<char>| !files.contains(tool_path(platform, root, name));
    crate::sort::lemma_first_index_bounds(names, missing);
    if resolvable(platform, sdk, llvm, found) {
        assert forall|i: int| 0 <= i < names.len() implies !missing(#[trigger] names[i]) by {}
    }
    if res is Ok {
        assert forall|i: int| 0 <= i < names.len() implies files.contains(
            tool_path(platform, root, #[trigger] names[i]),
        ) by {
            assert(!missing(names[i]));
        }
    }
}

/// Whether a directory with these names holds a libclang shared library.
pub fn contains_libclang(platform: Platform, names: &Vec<String>) -> (res: bool)
    ensures
        res == has_libclang(platform, texts(names@)),
{
    let extension = match platform {
        Platform::Windows => ".dll",
        Platform::Macos => ".dylib",
        Platform::Linux => ".so",
    };
    let mut i: usize = 0;
    while i < names.len()
        invariant
            i <= names.len(),
            extension@ == shared_library_extension(platform),
            forall|k: int| 0 <= k < i ==> !is_libclang(platform, #[trigger] texts(names@)[k]),
        decreases names.len() - i,
    {
        let name = names[i].as_str();
        proof {
            assert(texts(names@)[i as int] == name@);
        }
        if starts_with(name, "libclang.") && contains(name, extension) {
            return true;
        }
        i += 1;
    }
    false
}

/// The directory with libclang. A build would otherwise silently fall back to a libclang of the
/// host, so it is checked up front like the tools.
pub fn libclang_dir(platform: Platform, root: &str, found: &Found) -> (res: Result<String, Error>)
    ensures
        match libclang_dir_of(platform, root@, *found) {
            Some(dir) => res matches Ok(path) && path@ == dir,
            None => res matches Err(Error::MissingLibclang { path }) && path@ == joined_path(
                platform,
                root@,
                "lib"@,
            ),
        },
{
    if contains_libclang(platform, &found.lib_entries) {
        return Ok(join(platform, root, "lib"));
    }
    if platform == Platform::Windows && contains_libclang(platform, &found.bin_entries) {
        return Ok(join(platform, root, "bin"));
    }
    Err(Error::MissingLibclang { path: join(platform, root, "lib") })
}

/// The tool `name`, if it is there.
pub fn tool(platform: Platform, root: &str, name: &str, found: &Found) -> (res: Result<String, Error>)
    ensures
        match res {
            Ok(path) => {
                &&& path@ == tool_path(platform, root@, name@)
                &&& found.files@.contains(path@)
            },
            Err(error) => {
                &&& error matches Error::MissingTool { path }
                &&& path@ == tool_path(platform, root@, name@)
                &&& !found.files@.contains(path@)
            },
        },
{
    let path = program_path(platform, join2(platform, root, "bin", name).as_str());
    if found.files.contains(path.as_str()) {
        Ok(path)
    } else {
        Err(Error::MissingTool { path })
    }
}

fn resolve_in(platform: Platform, root: String, external: bool, found: &Found) -> (res: Result<
    Toolchain,
    Error,
>)
    ensures
        toolchain_in(platform, root@, external, *found, res),
{
    let ghost files = found.files@;
    let ghost missing = |name: Seq<char>| !files.contains(tool_path(platform, root@, name));
    let clang = match tool(platform, root.as_str(), "clang", found) {
        Ok(path) => path,
        Err(error) => {
            proof {
                lemma_first_index(tool_names(), missing, 0);
            }
            return Err(error);
        },
    };
    let clangxx = match tool(platform, root.as_str(), "clang++", found) {
        Ok(path) => path,
        Err(error) => {
            proof {
                lemma_first_index(tool_names(), missing, 1);
            }
            return Err(error);
        },
    };
    let ar = match tool(platform, root.as_str(), "llvm-ar", found) {
        Ok(path) => path,
        Err(error) => {
            proof {
                lemma_first_index(tool_names(), missing, 2);
            }
            return Err(error);
        },
    };
    let ranlib = match tool(platform, root.as_str(), "llvm-ranlib", found) {
        Ok(path) => path,
        Err(error) => {
            proof {
                lemma_first_index(tool_names(), missing, 3);
            }
            return Err(error);
        },
    };
    let strip = match tool(platform, root.as_str(), "llvm-strip", found) {
        Ok(path) => path,
        Err(error) => {
            proof {
                lemma_first_index(tool_names(), missing, 4);
            }
            return Err(error);
        },
    };
    let objcopy = match tool(platform, root.as_str(), "llvm-objcopy", found) {
        Ok(path) => path,
        Err(error) => {
            proof {
                lemma_first_index(tool_names(), missing, 5);
            }
            return Err(error);
        },
    };
    let readelf = match tool(platform, root.as_str(), "llvm-readelf", found) {
        Ok(path) => path,
        Err(error) => {
            proof {
                lemma_first_index(tool_names(), missing, 6);
            }
            return Err(error);
        },
    };
    proof {
        lemma_first_index(tool_names(), missing, 7);
    }
    let libclang_dir = match libclang_dir(platform, root.as_str(), found) {
        Ok(path) => path,
        Err(error) => return Err(error),
    };
    Ok(
        Toolchain {
            root,
            external,
            clang,
            clangxx,
            ar,
            ranlib,
            strip,
            objcopy,
            readelf,
            libclang_dir,
        },
    )
}

/// Where an external toolchain has the C++ standard library for a target.
pub open spec fn libcxx_of(platform: Platform, root: Seq<char>, target: Target) -> Seq<char> {
    joined_path(
        platform,
        joined_path(platform, joined_path(platform, root, "lib"@), target.lib_dir@),
        "libc++.so"@,
    )
}

/// The libraries to bundle: the C++ standard library of an external toolchain, none of the SDK's.
pub open spec fn runtime_libraries_are(
    platform: Platform,
    root: Seq<char>,
    external: bool,
    target: Target,
    libraries: Seq<RuntimeLibrary>,
) -> bool {
    if external {
        &&& libraries.len() == 1
        &&& libraries[0].path@ == libcxx_of(platform, root, target)
        &&& libraries[0].soname@ == "libc++.so"@
        &&& libraries[0].kind == RuntimeLibraryKind::CxxStdlib
    } else {
        libraries.len() == 0
    }
}

impl Toolchain {
    /// `llvm` optionally replaces the SDK's `llvm` directory with another OpenHarmony LLVM toolchain of
    /// the same shape. Such a toolchain bundles its own libc++ headers and per-target runtime
    /// libraries, so the driver finds everything relative to itself, exactly like the SDK's clang.
    pub fn resolve(platform: Platform, sdk: &Sdk, llvm: &Option<String>, found: &Found) -> (res: Result<
        Self,
        Error,
    >)
        ensures
            resolve_is(platform, *sdk, *llvm, *found, res),
    {
        match llvm {
            None => resolve_in(platform, sdk.llvm_root.clone(), false, found),
            Some(given) => match &found.canonical_llvm {
                Err(error) => Err(Error::Io { path: given.clone(), source: error.clone() }),
                Ok(root) => {
                    let headers = join2(platform, root.as_str(), "include", "libcxx-ohos");
                    if !found.directories.contains(headers.as_str()) {
                        return Err(Error::InvalidToolchain { path: root.clone() });
                    }
                    resolve_in(platform, root.clone(), true, found)
                },
            },
        }
    }

    /// The toolchain libraries an application linked with this toolchain may need to bundle.
    pub fn runtime_libraries(&self, platform: Platform, target: &Target, found: &Found) -> (res: Result<
        Vec<RuntimeLibrary>,
        Error,
    >)
        ensures
            match res {
                Ok(libraries) => {
                    &&& runtime_libraries_are(
                        platform,
                        self.root@,
                        self.external,
                        *target,
                        libraries@,
                    )
                    &&& self.external ==> found.files@.contains(
                        libcxx_of(platform, self.root@, *target),
                    )
                },
                Err(error) => {
                    &&& self.external
                    &&& error matches Error::MissingRuntimeLibrary { path }
                    &&& path@ == libcxx_of(platform, self.root@, *target)
                    &&& !found.files@.contains(path@)
                },
            },
    {
        let mut libraries: Vec<RuntimeLibrary> = Vec::new();
        if !self.external {
            return Ok(libraries);
        }
        let dir = join2(platform, self.root.as_str(), "lib", target.lib_dir.as_str());
        let path = join(platform, dir.as_str(), LIBCXX_SONAME);
        if !found.files.contains(path.as_str()) {
            return Err(Error::MissingRuntimeLibrary { path });
        }
        libraries.push(
            RuntimeLibrary {
                path,
                soname: LIBCXX_SONAME.to_owned(),
                kind: RuntimeLibraryKind::CxxStdlib,
            },
        );
        Ok(libraries)
    }
}

/// What a toolchain consists of was there when it was resolved: no path of it is made up.
pub proof fn law_resolved_tools_exist(
    platform: Platform,
    sdk: Sdk,
    llvm: Option<String>,
    found: Found,
    toolchain: Toolchain,
)
    requires
        resolve_is(platform, sdk, llvm, found, Ok::<Toolchain, Error>(toolchain)),
    ensures
        found.files@.contains(toolchain.clang@),
        found.files@.contains(toolchain.clangxx@),
        found.files@.contains(toolchain.ar@),
        found.files@.contains(toolchain.ranlib@),
        found.files@.contains(toolchain.strip@),
        found.files@.contains(toolchain.objcopy@),
        found.files@.contains(toolchain.readelf@),
        toolchain.external == llvm is Some,
        has_libclang(platform, texts(found.lib_entries@)) || has_libclang(
            platform,
            texts(found.bin_entries@),
        ),
{
    let files = found.files@;
    let root = toolchain.root@;
    let names = tool_names();
    let missing = |name: Seq<char>| !files.contains(tool_path(platform, root, name));
    crate::sort::lemma_first_index_bounds(names, missing);
    assert forall|i: int| 0 <= i < 7 implies !missing(#[trigger] names[i]) by {}
    assert(!missing(names[0]) && !missing(names[1]) && !missing(names[2]) && !missing(names[3]));
    assert(!missing(names[4]) && !missing(names[5]) && !missing(names[6]));
}

/// The paths on disk that resolving a toolchain asks about.
pub struct Questions {
    /// Which of these are files?
    pub files: Vec<String>,
    /// Which of these are directories?
    pub directories: Vec<String>,
    /// What is in this directory?
    pub lib: String,
    /// What is in this directory?
    pub bin: String,
}

/// The files that are asked about: the tools, the library to bundle, and the SDK's ninja.
pub open spec fn asked_files(
    platform: Platform,
    native_root: Seq<char>,
    root: Seq<char>,
    target: Target,
) -> Seq<Seq<char>> {
    tool_names().map_values(|name: Seq<char>| tool_path(platform, root, name)).push(
        libcxx_of(platform, root, target),
    ).push(crate::sdk::cmake_program(platform, native_root, "ninja"@))
}

/// What to look up for a build with the toolchain in `root` for `target`.
pub fn questions(platform: Platform, sdk: &Sdk, root: &str, target: &Target) -> (res: Questions)
    ensures
        texts(res.files@) == asked_files(platform, sdk.native_root@, root@, *target),
        texts(res.directories@) == seq![libcxx_headers_of(platform, root@)],
        res.lib@ == joined_path(platform, root@, "lib"@),
        res.bin@ == joined_path(platform, root@, "bin"@),
{
    let names = crate::process::argv(
        vec![
            "clang",
            "clang++",
            "llvm-ar",
            "llvm-ranlib",
            "llvm-strip",
            "llvm-objcopy",
            "llvm-readelf",
        ],
    );
    proof {
        assert(texts(names@) =~= tool_names());
    }
    let mut files: Vec<String> = Vec::new();
    let mut i: usize = 0;
    while i < names.len()
        invariant
            i <= names.len(),
            texts(names@) == tool_names(),
            files.len() == i,
            forall|k: int|
                0 <= k < i ==> (#[trigger] files@[k])@ == tool_path(platform, root@, tool_names()[k]),
        decreases names.len() - i,
    {
        proof {
            assert(tool_names()[i as int] == names@[i as int]@);
        }
        let tool = join2(platform, root, "bin", names[i].as_str());
        files.push(program_path(platform, tool.as_str()));
        i += 1;
    }
    let lib = join(platform, root, "lib");
    let dir = join(platform, lib.as_str(), target.lib_dir.as_str());
    files.push(join(platform, dir.as_str(), LIBCXX_SONAME));
    files.push(crate::sdk::sdk_paths(platform, sdk.native_root.as_str()).ninja);
    let mut directories: Vec<String> = Vec::new();
    directories.push(join2(platform, root, "include", "libcxx-ohos"));
    proof {
        assert(names.len() == tool_names().len());
        assert(texts(files@) =~= asked_files(platform, sdk.native_root@, root@, *target));
        assert(texts(directories@) =~= seq![libcxx_headers_of(platform, root@)]);
    }
    Questions { files, directories, lib, bin: join(platform, root, "bin") }
}

/// Resolving depends on nothing but the answers to what is asked: two looks at a disk that agree on
/// them give the same result.
pub proof fn law_resolving_depends_on_the_answers(
    platform: Platform,
    sdk: Sdk,
    llvm: Option<String>,
    target: Target,
    a: Found,
    b: Found,
    res: Result<Toolchain, Error>,
)
    requires
        a.canonical_llvm == b.canonical_llvm,
        forall|path: Seq<char>| #[trigger]
            asked_files(platform, sdk.native_root@, root_of(sdk, llvm, a), target).contains(path)
                ==> a.files@.contains(path) == b.files@.contains(path),
        a.directories@.contains(libcxx_headers_of(platform, root_of(sdk, llvm, a)))
            == b.directories@.contains(libcxx_headers_of(platform, root_of(sdk, llvm, a))),
        texts(a.lib_entries@) == texts(b.lib_entries@),
        texts(a.bin_entries@) == texts(b.bin_entries@),
        resolve_is(platform, sdk, llvm, a, res),
    ensures
        resolve_is(platform, sdk, llvm, b, res),
{
    let root = root_of(sdk, llvm, a);
    let names = tool_names();
    let asked = asked_files(platform, sdk.native_root@, root, target);
    let fa = a.files@;
    let fb = b.files@;
    let missing_a = |name: Seq<char>| !fa.contains(tool_path(platform, root, name));
    let missing_b = |name: Seq<char>| !fb.contains(tool_path(platform, root, name));
    assert forall|i: int| 0 <= i < names.len() implies missing_a(#[trigger] names[i]) == missing_b(
        names[i],
    ) by {
        assert(asked[i] == tool_path(platform, root, names[i]));
        assert(asked.contains(asked[i]));
    }
    crate::sort::lemma_first_index_bounds(names, missing_a);
    let n = first_index(names, missing_a) as int;
    assert forall|i: int| 0 <= i < n implies !missing_b(#[trigger] names[i]) by {
        assert(!missing_a(names[i]));
    }
    if n < names.len() {
        assert(missing_b(names[n]));
    }
    lemma_first_index(names, missing_b, n);
}

} // verus!
