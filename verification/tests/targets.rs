use aspect::target::TargetSpec;

#[test]
fn classifies_x86_64_and_aarch64_arches() {
    assert_eq!(
        TargetSpec::parse("x86_64-unknown-linux-gnu").arch_define(),
        Some("ARCH_X86_64")
    );
    assert_eq!(
        TargetSpec::parse("aarch64-unknown-linux-gnu").arch_define(),
        Some("ARCH_AARCH64")
    );
}

#[test]
fn every_32_bit_x86_spelling_maps_to_arch_i386() {
    for arch in ["i386", "i486", "i586", "i686"] {
        let triple = format!("{arch}-unknown-none-elf");
        assert_eq!(
            TargetSpec::parse(&triple).arch_define(),
            Some("ARCH_I386"),
            "{triple} should seed ARCH_I386"
        );
    }
}

#[test]
fn a_bare_metal_i386_triple_names_no_os_but_a_known_arch() {
    // `i386-unknown-none-elf` — the freestanding kernel target — has no OS
    // component, so no `OS_*` define is seeded, but the arch is known.
    let spec = TargetSpec::parse("i386-unknown-none-elf");
    assert_eq!(spec.os_define(), None);
    assert_eq!(spec.arch_define(), Some("ARCH_I386"));
}
