use cargo_ohos::target::{Arch, Target};

#[test]
fn short_and_long_names_agree() {
    assert_eq!(
        Target::parse("aarch64").unwrap(),
        Target::parse("aarch64-unknown-linux-ohos").unwrap()
    );
    assert_eq!(Target::parse("arm64").unwrap().arch, Arch::Aarch64);
}

#[test]
fn armv7_lib_dir_differs_from_clang_triple() {
    let t = Target::parse("armv7").unwrap();
    assert_eq!(t.clang_triple, "armv7-linux-ohos");
    assert_eq!(t.lib_dir, "arm-linux-ohos");
    assert_ne!(t.clang_triple, t.lib_dir);
}

#[test]
fn other_arches_use_one_spelling_for_both() {
    for spec in ["aarch64", "x86_64", "loongarch64"] {
        let t = Target::parse(spec).unwrap();
        assert_eq!(t.clang_triple, t.lib_dir, "{spec}");
    }
}

#[test]
fn env_var_spellings() {
    let t = Target::parse("aarch64").unwrap();
    assert_eq!(t.rust_triple_underscored(), "aarch64_unknown_linux_ohos");
    assert_eq!(t.rust_triple_upper(), "AARCH64_UNKNOWN_LINUX_OHOS");
}

#[test]
fn armv7_carries_arch_flags() {
    assert!(Target::parse("armv7")
        .unwrap()
        .extra_cflags()
        .contains(&"-mthumb".to_owned()));
    assert!(Target::parse("aarch64").unwrap().extra_cflags().is_empty());
}

#[test]
fn rejects_non_ohos() {
    assert!(Target::parse("aarch64-linux-android").is_err());
}

#[test]
fn every_triple_names_its_target() {
    for arch in [Arch::Aarch64, Arch::Armv7, Arch::X86_64, Arch::LoongArch64] {
        let target = Target::from_arch(arch);
        assert_eq!(Target::parse(&target.rust_triple).unwrap(), target);
        assert_eq!(target.clone(), target);
    }
}

#[test]
fn abis_and_other_spellings() {
    let spell = |name: &str| {
        let target = Target::parse(name).unwrap();
        (target.ohos_abi(), target.clang_triple_underscored())
    };
    assert_eq!(spell("aarch64"), ("arm64-v8a", "aarch64_linux_ohos".to_owned()));
    assert_eq!(spell("armv7"), ("armeabi-v7a", "armv7_linux_ohos".to_owned()));
    assert_eq!(spell("x86_64"), ("x86_64", "x86_64_linux_ohos".to_owned()));
    assert_eq!(
        Target::parse("x86_64").unwrap().rust_triple_upper(),
        "X86_64_UNKNOWN_LINUX_OHOS"
    );
}

#[test]
fn an_unknown_target_is_named() {
    let error = Target::parse("riscv64").unwrap_err();
    assert!(error.message().contains("`riscv64`"), "{}", error.message());
    assert!(error.message().contains("is not a known OpenHarmony target"));
}
