use cargo_ohos::digest::{hex, parse_sha256, sha256};
use cargo_ohos::ordered::{StringMap, StringSet};
use cargo_ohos::path::{is_absolute, join, posix, program_path, split_path, Platform};
use cargo_ohos::process::{command_failure, Output};
use cargo_ohos::text::{
    contains, decimal_string, lines, parse_plain_number, parse_u32, replace_char, split, split_once,
    split_whitespace, strip_prefix, trim, Class,
};

#[test]
fn text_is_cut_as_the_standard_library_cuts_it() {
    for text in ["", "a", "a\nb", "a\r\nb\n", "\n\n", "a\r", " x \u{85}y\u{a0} z", "a.b-c..d"] {
        assert_eq!(lines(text), text.lines().collect::<Vec<_>>(), "{text:?}");
        assert_eq!(
            split_whitespace(text),
            text.split_whitespace().collect::<Vec<_>>(),
            "{text:?}"
        );
        assert_eq!(trim(text), text.trim(), "{text:?}");
        assert_eq!(
            split(text, Class::Is('.')),
            text.split('.').collect::<Vec<_>>(),
            "{text:?}"
        );
        assert_eq!(
            split(text, Class::VersionSeparator),
            text.split(['.', '-']).collect::<Vec<_>>(),
            "{text:?}"
        );
        assert_eq!(replace_char(text, 'a', "xyz"), text.replace('a', "xyz"));
        assert_eq!(contains(text, "\n"), text.contains('\n'));
        assert_eq!(
            split_once(text, '.'),
            text.split_once('.').map(|(a, b)| (a.to_owned(), b.to_owned()))
        );
    }
    assert_eq!(strip_prefix("v6.0", "v").as_deref(), Some("6.0"));
    assert_eq!(strip_prefix("6.0", "v"), None);
}

#[test]
fn numbers_are_read_as_the_standard_library_reads_them() {
    for text in ["", "0", "007", "+5", "-5", "4294967295", "4294967296", "1x", "+"] {
        assert_eq!(parse_u32(text), text.parse::<u32>().ok(), "{text:?}");
    }
    assert_eq!(parse_plain_number("18446744073709551615"), Some(u64::MAX));
    assert_eq!(parse_plain_number("18446744073709551616"), None);
    assert_eq!(parse_plain_number("+5"), None);
    for n in [0, 7, 10, 4096, u64::MAX] {
        assert_eq!(decimal_string(n), n.to_string());
        assert_eq!(parse_plain_number(&decimal_string(n)), Some(n));
    }
}

#[test]
fn digests_are_spelled_in_lowercase() {
    assert_eq!(hex(&vec![0x00, 0x0f, 0xa5, 0xff]), "000fa5ff");
    assert_eq!(
        hex(&sha256(b"")),
        "e3b0c44298fc1c149afbf4c8996fb92427ae41e4649b934ca495991b7852b855"
    );
    assert_eq!(
        hex(&sha256(b"hello world")),
        "b94d27b9934d3e08a52e52d7da7dabfac484efe37a5380ee9088f7ace2efcde9"
    );
}

#[test]
fn digests_are_read_in_any_case() {
    assert_eq!(parse_sha256(&"Ab".repeat(32)), Some("ab".repeat(32)));
    assert_eq!(parse_sha256(&"ab".repeat(31)), None);
    assert_eq!(parse_sha256(&"gg".repeat(32)), None);
    assert_eq!(parse_sha256(""), None);
    let digest = hex(&sha256(b"x"));
    assert_eq!(parse_sha256(&digest), Some(digest));
}

#[test]
fn sets_and_maps_are_walked_in_order() {
    let names = |list: &[&str]| list.iter().map(|name| name.to_string()).collect::<Vec<_>>();
    let set = StringSet::from_vec(names(&["b", "a", "c", "a"]));
    assert_eq!(set.to_vec(), ["a", "b", "c"]);
    assert!(set.contains("b") && !set.contains("d"));
    let other = StringSet::from_vec(names(&["b", "d"]));
    assert_eq!(set.difference(&other), ["a", "c"]);
    assert_eq!(set.union(&other).to_vec(), ["a", "b", "c", "d"]);
    assert!(!other.is_subset(&set));

    let mut map = StringMap::new();
    map.insert("k".to_owned(), "1".to_owned());
    map.insert("j".to_owned(), "2".to_owned());
    map.insert("k".to_owned(), "3".to_owned());
    assert_eq!(map.len(), 2);
    assert_eq!(map.entry(0), ("j".to_owned(), "2".to_owned()));
    assert_eq!(map.entry(1), ("k".to_owned(), "3".to_owned()));
    assert_eq!(map.get("k").as_deref(), Some("3"));
    assert_eq!(map.get("x"), None);
}

#[test]
fn paths_are_joined_by_the_rules_of_the_platform() {
    assert_eq!(join(Platform::Linux, "/a", "b"), "/a/b");
    assert_eq!(join(Platform::Linux, "/a/", "b"), "/a/b");
    assert_eq!(join(Platform::Linux, "/a", "/b"), "/b");
    assert_eq!(join(Platform::Linux, "", "b"), "b");
    assert_eq!(join(Platform::Windows, r"C:\a", "b"), r"C:\a\b");
    assert_eq!(join(Platform::Windows, r"C:\a", r"D:\b"), r"D:\b");
    assert_eq!(join(Platform::Windows, r"C:\a", r"\b"), r"C:\b");
    assert!(is_absolute(Platform::Linux, "/a") && !is_absolute(Platform::Linux, "a"));
    assert!(is_absolute(Platform::Windows, r"C:\a") && !is_absolute(Platform::Windows, r"\a"));
    assert_eq!(posix(r"C:\a\b"), "C:/a/b");
}

#[test]
fn programs_have_the_extension_of_the_platform() {
    let windows = |path: &str| program_path(Platform::Windows, path);
    assert_eq!(windows("clang"), "clang.exe");
    assert_eq!(windows(r"C:\a.b\clang++"), r"C:\a.b\clang++.exe");
    assert_eq!(windows(r"C:\a\x.y"), r"C:\a\x.exe");
    assert_eq!(windows(r"C:x.y.z"), "C:x.y.exe");
    assert_eq!(windows(r"a\.hidden"), r"a\.hidden.exe");
    assert_eq!(windows("a/x./"), "a/x.exe");
    assert_eq!(windows(r"a\x.y\.\"), r"a\x.exe");
    // Without a file name there is nothing to replace.
    for path in ["", ".", "..", r"C:\", r"a\..", r"\\server\share", r"\\?\C:\."] {
        assert_eq!(windows(path), path);
    }
    assert_eq!(windows(r"\\?\C:\a/x.y"), r"\\?\C:\a/x.exe");
    assert_eq!(program_path(Platform::Macos, "clang"), "clang");
    assert_eq!(program_path(Platform::Linux, "/a/x.y"), "/a/x.y");
}

#[test]
fn windows_paths_keep_what_they_begin_with() {
    let absolute = |path: &str| is_absolute(Platform::Windows, path);
    for path in [
        "C:/a",
        r"\\server\share",
        "//server/share/a",
        r"\\.\COM42",
        r"\\?\C:",
        r"\\?\cat_pics",
        r"\\?\UNC\server\share",
    ] {
        assert!(absolute(path), "{path}");
    }
    for path in ["", "C:", "C:a", r"\\foo", r"\\foo\", r"\\\foo", r"\a", "é:/a", "4:/a"] {
        assert!(!absolute(path), "{path}");
    }

    let joined = |base: &str, part: &str| join(Platform::Windows, base, part);
    assert_eq!(joined(r"\\server\share\a", r"\b"), r"\\server\share\b");
    assert_eq!(joined(r"\\server\share", "b"), r"\\server\share\b");
    assert_eq!(joined(r"\\foo", r"\b"), r"\b");
    assert_eq!(joined(r"C:\a", r"\\foo"), r"C:\\foo");
    assert_eq!(joined(r"C:\a", r"\\server\share\b"), r"\\server\share\b");
    assert_eq!(joined(r"C:\a", "D:b"), "D:b");
    assert_eq!(joined("C:", "b"), "C:b");
    assert_eq!(joined(r"C:\a", ""), r"C:\a\");

    // What is taken to the letter is spelled anew.
    assert_eq!(joined(r"\\?\C:\a", "b/../c/./d"), r"\\?\C:\a\c\d");
    assert_eq!(joined(r"\\?\C:\a\", r"..\..\b"), r"\\?\C:\b");
    assert_eq!(joined(r"\\?\C:\a\b", r"\c"), r"\\?\C:\c");
    assert_eq!(joined(r"\\?\UNC\server\share\a", "b"), r"\\?\UNC\server\share\a\b");
    assert_eq!(joined(r"\\?\name", "b"), r"\\?\name\b");
    assert_eq!(joined(r"\\?\name", "."), r"\\?\name");
    assert_eq!(joined(r"\\?\C:\a\..", ".."), r"\\?\C:\a\..");
    assert_eq!(joined(r"\\?\C:\a", ""), r"\\?\C:\a\");
}

#[test]
fn paths_are_cut_into_parts() {
    let windows = |path: &str| split_path(Platform::Windows, path);
    assert_eq!(windows(r"C:\a/.\b\\..\"), ["a", "b", ".."]);
    assert_eq!(windows("//server/share/a"), ["a"]);
    assert_eq!(windows(r"\\?\C:/a\./b\c"), ["a", "./b", "c"]);
    assert_eq!(windows(r"\\?\UNC/server\share\a"), ["a"]);
    assert_eq!(windows(r"\\.\device\a"), ["a"]);
    assert_eq!(split_path(Platform::Linux, r"/a/./b\c//"), ["a", r"b\c"]);
}

#[test]
fn failures_are_reported_with_what_was_printed() {
    let output = |code: Option<i32>, stdout: &[u8], stderr: &[u8]| Output {
        code,
        stdout: stdout.to_vec(),
        stderr: stderr.to_vec(),
    };
    assert_eq!(
        command_failure("x", &output(Some(-3), b" out \n", b"")),
        "`x` failed with exit status -3\nstdout:\nout"
    );
    assert_eq!(
        command_failure("x", &output(None, b"", b"\xff!")),
        "`x` failed\nstderr:\n\u{fffd}!"
    );
    assert!(output(Some(0), b"", b"").success());
    assert!(!output(Some(1), b"", b"").success());
    assert!(!output(None, b"", b"").success());
}
