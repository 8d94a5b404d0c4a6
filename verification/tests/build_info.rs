use lore_core::build_info::{
    build_sha_from, get_build_sha, profile_dir, profile_name, read_report, report_is_sound,
    report_text, revision_unavailable, LoreVergen,
};

#[test]
fn build_commit_comes_from_the_variable_first() {
    assert_eq!(get_build_sha(Some(" abc\n"), Some(b"def\n")), "abc");
    assert_eq!(get_build_sha(Some("  "), Some(b"def\n")), "def");
    assert_eq!(get_build_sha(None, Some(b"\n")), "unknown");
    assert_eq!(get_build_sha(None, None), "unknown");
    assert_eq!(get_build_sha(None, Some(b"a\xff")), "a\u{fffd}");
    assert_eq!(build_sha_from(None, Some("\u{2003}def")), "def");
}

fn number_of(report: &str) -> String {
    assert!(report_is_sound(report));
    let info = read_report(report);
    if info.revision_number == "0" {
        assert_eq!(
            info.warning,
            ["Failed to execute Lore to get revision information, no data extracted"]
        );
    } else {
        assert!(info.warning.is_empty());
    }
    info.revision_number
}

#[test]
fn reports_of_both_formats_are_read() {
    assert_eq!(
        number_of("Revision : 42\nSignature : 0123456789abcdef\n"),
        "42"
    );
    assert_eq!(
        number_of("Branch: main\r\nRevision 7\r\nSignature: 0123456789abcdef\r\n"),
        "7"
    );
    assert_eq!(
        number_of("Revision 1\nRevision 2\nSignature: 0123456789abcdef"),
        "2"
    );
}

#[test]
fn reports_without_number_or_signature_count_as_none() {
    assert_eq!(number_of(""), "0");
    assert_eq!(number_of("Revision : 42\n"), "0");
    assert_eq!(number_of("Signature : 0123456789abcdef\n"), "0");
    assert_eq!(number_of("Revision :\nSignature : 0123456789abcdef\n"), "0");
    assert_eq!(number_of("Revision : 3\nSignature without value\n"), "0");
}

#[test]
fn reports_with_a_short_signature_are_unsound() {
    assert!(!report_is_sound("Signature: 0123\n"));
    assert!(!report_is_sound("Signature : 0123\n"));
    assert!(!report_is_sound("Signature : 0123456é89\n"));
    assert!(report_is_sound("Signature : 01234567\n"));
    assert!(report_is_sound("Signed: 0\n"));
}

#[test]
fn output_that_is_no_text_reads_as_nothing() {
    assert_eq!(report_text(b"Revision : 1"), "Revision : 1");
    assert_eq!(report_text(b"Revision \xff"), "");
}

#[test]
fn failure_to_run_is_a_warning() {
    let info = revision_unavailable("no such file");
    assert_eq!(info.revision_number, "0");
    assert_eq!(
        info.warning,
        ["Failed to execute Lore to get revision information, unknown version generated: no such file"]
    );
}

#[test]
fn stamp_puts_version_and_revision_together() {
    let info = revision_unavailable("x");
    let stamp = LoreVergen::new("0.8.6-nightly", None, info, "abc".to_string());
    assert_eq!(stamp.lore_library_version_name, "0.8.6-nightly+0");
    assert_eq!(stamp.warning.len(), 1);
    let entries = stamp.entries();
    assert_eq!(entries.len(), 2);
    assert_eq!(entries[0].name, "VERGEN_LORE_LIBRARY_VERSION_NAME");
    assert_eq!(entries[0].value, "0.8.6-nightly+0");
    assert_eq!(entries[1].name, "VERGEN_LORE_BUILD_SHA");
    assert_eq!(entries[1].value, "abc");

    let info = revision_unavailable("x");
    let stamp = LoreVergen::new("0.8.6", Some("r12"), info, "abc".to_string());
    assert_eq!(stamp.lore_library_version_name, "0.8.6+r12");
    assert!(stamp.warning.is_empty());
}

fn components(path: &str) -> Vec<String> {
    path.split('/').map(str::to_string).collect()
}

#[test]
fn profile_is_the_directory_above_build() {
    let path = components("home/target/release/build/lore-1/out");
    assert_eq!(profile_dir(&path), Some(3));
    assert_eq!(profile_name(&path), Some("release".to_string()));
    let nested = components("build/debug/build/out");
    assert_eq!(profile_dir(&nested), Some(2));
    assert_eq!(profile_name(&nested), Some("debug".to_string()));
    assert_eq!(profile_dir(&components("a/b")), None);
    assert_eq!(profile_name(&components("build/out")), None);
    assert_eq!(profile_dir(&components("a/build/../out")), None);
}
