//! What a build says of itself: its version name and the commit it was built from.

use crate::text::{
    byte_prefix, contains_text, has_prefix, law_byte_prefix_is_cut_between_characters, law_utf8_widths,
    lemma_byte_prefix, lemma_byte_prefix_narrow, utf8_length,
    lemma_contains_middle, prefix_of_bytes, same_text,
};
use vstd::prelude::*;

verus! {

/// The number of bytes that an abbreviated commit keeps.
pub const SHORT_SHA_LENGTH: usize = 12;

/// An abbreviated commit: its first twelve bytes, or all of it where it cannot be cut there.
pub open spec fn short_sha(sha: Seq<char>) -> Seq<char> {
    match byte_prefix(sha, SHORT_SHA_LENGTH as nat) {
        Some(prefix) => prefix,
        None => sha,
    }
}

/// Abbreviated build commit, for log lines and the client/server handshake.
pub fn lore_build_sha_short(sha: &str) -> (r: String)
    ensures
        r@ == short_sha(sha@),
        has_prefix(sha@, r@),
{
    proof {
        lemma_byte_prefix(sha@, SHORT_SHA_LENGTH as nat);
        assert(sha@.take(sha@.len() as int) =~= sha@);
    }
    match prefix_of_bytes(sha, SHORT_SHA_LENGTH) {
        Some(prefix) => prefix,
        None => sha.to_owned(),
    }
}

/// Whether a build could not determine its own commit. Such a build cannot prove a match, so the
/// handshake treats it as unmatchable rather than as agreeing with whatever it is talking to.
pub fn lore_build_sha_is_unknown(sha: &str) -> (r: bool)
    ensures
        r == (sha@ == "unknown"@),
{
    same_text(sha, "unknown")
}

/// No known commit is abbreviated to what an unknown one is called.
pub proof fn law_known_commit_is_not_called_unknown(sha: Seq<char>)
    requires
        sha != "unknown"@,
    ensures
        short_sha(sha) != "unknown"@,
{
    reveal_strlit("unknown");
    if byte_prefix(sha, SHORT_SHA_LENGTH as nat) == Some("unknown"@) {
        lemma_byte_prefix_narrow(sha, SHORT_SHA_LENGTH as nat);
    }
}

/// The operator-facing version line of a build.
pub open spec fn version_line(version: Seq<char>, sha: Seq<char>) -> Seq<char> {
    version + " (build "@ + short_sha(sha) + ")"@
}

/// Operator-facing version line: the version name plus the build commit. The version name alone
/// is identical across a whole lineage, so without the commit an operator cannot tell what is
/// deployed.
pub fn lore_version_with_build(version: &str, sha: &str) -> (r: String)
    ensures
        r@ == version_line(version@, sha@),
{
    let short = lore_build_sha_short(sha);
    let mut line = version.to_owned();
    line.append(" (build ");
    line.append(short.as_str());
    line.append(")");
    line
}

/// The version line names both the version and the build commit.
pub proof fn law_version_line_names_version_and_commit(version: Seq<char>, sha: Seq<char>)
    ensures
        contains_text(version_line(version, sha), short_sha(sha)),
        contains_text(version_line(version, sha), version),
{
    let line = version_line(version, sha);
    lemma_contains_middle(version + " (build "@, short_sha(sha), ")"@);
    lemma_contains_middle(Seq::empty(), version, " (build "@ + short_sha(sha) + ")"@);
    assert(Seq::<char>::empty() + version + (" (build "@ + short_sha(sha) + ")"@) =~= line);
}

/// A commit in ASCII is abbreviated to its first twelve characters; a shorter one is kept.
pub proof fn law_commit_is_abbreviated_to_twelve(sha: Seq<char>)
    requires
        forall|i: int| 0 <= i < sha.len() ==> #[trigger] sha[i] <= '\u{7f}',
    ensures
        sha.len() >= 12 ==> short_sha(sha) == sha.take(12),
        sha.len() < 12 ==> short_sha(sha) == sha,
{
    if sha.len() >= 12 {
        lemma_narrow_length(sha.take(12));
        law_byte_prefix_is_cut_between_characters(sha, 12, 12);
    } else {
        law_byte_prefix_is_cut_between_characters(sha, 0, 12);
        if let Some(prefix) = byte_prefix(sha, 12) {
            assert(prefix == sha.take(prefix.len() as int));
            lemma_narrow_length(prefix);
        }
    }
}

/// A text in ASCII takes one byte for each character.
proof fn lemma_narrow_length(s: Seq<char>)
    requires
        forall|i: int| 0 <= i < s.len() ==> #[trigger] s[i] <= '\u{7f}',
    ensures
        utf8_length(s) == s.len(),
    decreases s.len(),
{
    if s.len() > 0 {
        assert forall|i: int| 0 <= i < s.skip(1).len() implies #[trigger] s.skip(1)[i]
            <= '\u{7f}' by {
            assert(s[i + 1] <= '\u{7f}');
        }
        lemma_narrow_length(s.skip(1));
        law_utf8_widths(s[0]);
    }
}

/// A version line is the version, and the abbreviated commit in brackets behind it.
pub proof fn law_version_line_has_its_form(version: Seq<char>, sha: Seq<char>)
    ensures
        version_line(version, sha) == version + " (build "@ + short_sha(sha) + ")"@,
{
}

} // verus!
