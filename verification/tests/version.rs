use lore_core::version::{
    lore_build_sha_is_unknown, lore_build_sha_short, lore_version_with_build,
};

const LORE_LIBRARY_VERSION: &str = "0.8.6-nightly+0";
const LORE_BUILD_SHA: &str = "4f2c9a71be03d5586a7e9c1d20b34f5a6c7d8e90";

#[test]
fn version_line_names_the_build_commit() {
    let line = lore_version_with_build(LORE_LIBRARY_VERSION, LORE_BUILD_SHA);
    assert!(line.contains(lore_build_sha_short(LORE_BUILD_SHA).as_str()));
    assert!(line.contains(LORE_LIBRARY_VERSION));
}

#[test]
fn version_line_has_its_exact_form() {
    assert_eq!(
        lore_version_with_build(LORE_LIBRARY_VERSION, LORE_BUILD_SHA),
        "0.8.6-nightly+0 (build 4f2c9a71be03)"
    );
}

#[test]
fn short_commit_keeps_what_cannot_be_cut() {
    assert_eq!(lore_build_sha_short("unknown"), "unknown");
    assert_eq!(lore_build_sha_short("0123456789ab"), "0123456789ab");
    assert_eq!(lore_build_sha_short("0123456789abc"), "0123456789ab");
    // The twelfth byte falls into the middle of a character.
    assert_eq!(lore_build_sha_short("0123456789aéz"), "0123456789aéz");
    assert_eq!(lore_build_sha_short("0123456789éz"), "0123456789é");
    assert_eq!(lore_build_sha_short(""), "");
}

#[test]
fn unknown_commit_is_recognized() {
    assert!(lore_build_sha_is_unknown("unknown"));
    assert!(!lore_build_sha_is_unknown("Unknown"));
    assert!(!lore_build_sha_is_unknown(LORE_BUILD_SHA));
}
