# cargo-ohos

Cross-compile Rust for OpenHarmony. Sets up the environment for cargo, cc-rs, bindgen, cmake-rs and
pkg-config from the OpenHarmony SDK.

The crate comes in two parts.

- `src/` is the library: everything the tool computes and decides, as functions on plain values
  whose contracts are proved with Verus. Reading the disk, the network and other programs is left to
  the caller. Where such work alternates with decisions, the library has a function from what was
  seen so far to the next step.
- `app/` is the program `cargo ohos`. It carries out the steps. The library holds paths as text, so a
  path that is not Unicode is not found.

## Layout of the library

| Module | What it holds |
| --- | --- |
| `text`, `path`, `ordered`, `sort`, `digest`, `process` | the vocabulary: text, paths, ordered collections, sorting, digests, outcomes of programs |
| `target` | the targets and their spellings |
| `sdk` | releases, installs and discovery of the OpenHarmony SDK |
| `toolchain`, `prebuilt` | the LLVM toolchain, and prebuilt ones |
| `download`, `attestation` | releases on GitHub, caches, checksums and provenance |
| `build_env` | the flags, the CMake toolchain file and the environment variables |
| `args`, `command`, `ambient`, `shell`, `runner`, `run` | the command line, and what cargo is run with |
| `rustup` | making sure that rustc can compile for a target |

Proof functions whose names start with `law_` state what holds of the library as a whole: that a
shell reads back the values written for it, that an install is marked only once it is complete,
that the flags reach a compiler exactly once, that what stands behind `--` reaches cargo unchanged,
and so on.

## What is trusted

- `digest`: the `sha2` crate's SHA-256. The library names its digest and says that feeding a hasher
  in pieces is feeding it the concatenation.
- `text`: `String::push`, `String::from_utf8_lossy` and `str::to_uppercase` of the standard library.

## License

MIT OR Apache-2.0
