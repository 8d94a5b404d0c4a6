//! What the build stamps into a binary: its version name and the commit it was built from.

use crate::encoding::{from_utf8, from_utf8_lossy, utf8_lossy};
use crate::text::{
    byte_prefix, chars_of, has_prefix, law_split_at_the_first, lines, prefix_of_bytes, same_text, split_lines, split_once,
    starts_with, text_after, trim_text, trimmed, views,
};
use vstd::prelude::*;
use vstd::utf8::{
    decode_utf8, encode_utf8, encode_utf8_decode_utf8, encode_utf8_valid_utf8, valid_utf8,
};

verus! {

/// The variable that carries the version name into the binary.
pub const VERSION_NAME_KEY: &'static str = "VERGEN_LORE_LIBRARY_VERSION_NAME";

/// The variable that carries the build commit into the binary.
pub const BUILD_SHA_KEY: &'static str = "VERGEN_LORE_BUILD_SHA";

/// The number of bytes of a signature that are kept.
pub const SIGNATURE_LENGTH: usize = 8;

/// The build commit, given the variable that names it and what git says of it. A blank answer
/// counts as none.
pub open spec fn build_sha_of(variable: Option<Seq<char>>, git: Option<Seq<char>>) -> Seq<char> {
    match variable {
        Some(sha) if trimmed(sha).len() > 0 => trimmed(sha),
        _ => match git {
            Some(sha) if trimmed(sha).len() > 0 => trimmed(sha),
            _ => "unknown"@,
        },
    }
}

/// A text, where there is one.
pub open spec fn text_view(text: Option<&str>) -> Option<Seq<char>> {
    match text {
        Some(text) => Some(text@),
        None => None,
    }
}

/// The build commit, given the variable that names it and what git says of it as text. The
/// variable comes first, because container builds copy a source tree without git's own data.
pub fn build_sha_from(variable: Option<&str>, git: Option<&str>) -> (r: String)
    ensures
        r@ == build_sha_of(text_view(variable), text_view(git)),
{
    if let Some(sha) = variable {
        let sha = trim_text(sha);
        if !sha.as_str().is_empty() {
            return sha;
        }
    }
    if let Some(sha) = git {
        let sha = trim_text(sha);
        if !sha.as_str().is_empty() {
            return sha;
        }
    }
    "unknown".to_owned()
}

/// The build commit, given the variable that names it and what `git rev-parse` printed, where it
/// succeeded.
pub fn get_build_sha(variable: Option<&str>, git_stdout: Option<&[u8]>) -> (r: String)
    ensures
        r@ == build_sha_of(
            text_view(variable),
            match git_stdout {
                Some(bytes) => Some(utf8_lossy(bytes@)),
                None => None,
            },
        ),
{
    match git_stdout {
        Some(bytes) => {
            let text = from_utf8_lossy(bytes);
            build_sha_from(variable, Some(text.as_str()))
        },
        None => build_sha_from(variable, None),
    }
}

/// The number of a revision, and what went wrong in finding it.
#[derive(Debug)]
pub struct RevisionInfo {
    pub revision_number: String,
    pub warning: Vec<String>,
}

/// What a [`RevisionInfo`] says, as text.
pub struct RevisionInfoView {
    pub revision_number: Seq<char>,
    pub warning: Seq<Seq<char>>,
}

impl View for RevisionInfo {
    type V = RevisionInfoView;

    open spec fn view(&self) -> RevisionInfoView {
        RevisionInfoView {
            revision_number: self.revision_number@,
            warning: views(self.warning@),
        }
    }
}

/// The revision number that a line gives: `Revision : 7`, or `Revision 7` as older versions have
/// it.
pub open spec fn revision_value(line: Seq<char>) -> Option<Seq<char>> {
    if has_prefix(line, "Revision "@) {
        match split_once(line, ':') {
            Some((_, number)) => Some(trimmed(number)),
            None => match split_once(line, ' ') {
                Some((_, number)) => Some(trimmed(number)),
                None => None,
            },
        }
    } else {
        None
    }
}

/// The signature that a line gives: `Signature : abc`, or `Signature: abc` as older versions have
/// it.
pub open spec fn signature_value(line: Seq<char>) -> Option<Seq<char>> {
    if has_prefix(line, "Revision "@) {
        None
    } else if has_prefix(line, "Signature: "@) {
        match split_once(line, ' ') {
            Some((_, signature)) => Some(trimmed(signature)),
            None => None,
        }
    } else if has_prefix(line, "Signature "@) {
        match split_once(line, ':') {
            Some((_, signature)) => Some(trimmed(signature)),
            None => None,
        }
    } else {
        None
    }
}

/// Whether a signature that a line gives can be cut to the bytes that are kept.
pub open spec fn signature_fits(line: Seq<char>) -> bool {
    signature_value(line) matches Some(signature) ==> byte_prefix(
        signature,
        SIGNATURE_LENGTH as nat,
    ) is Some
}

/// Whether every signature of a report can be cut to the bytes that are kept.
pub open spec fn signatures_fit(report: Seq<Seq<char>>) -> bool {
    forall|i: int| 0 <= i < report.len() ==> signature_fits(#[trigger] report[i])
}

/// The last revision number that a report gives; empty where it gives none.
pub open spec fn reported_number(report: Seq<Seq<char>>) -> Seq<char>
    decreases report.len(),
{
    if report.len() == 0 {
        Seq::empty()
    } else {
        match revision_value(report.last()) {
            Some(number) => number,
            None => reported_number(report.drop_last()),
        }
    }
}

/// Whether a report gives a signature.
pub open spec fn reports_signature(report: Seq<Seq<char>>) -> bool {
    exists|i: int| 0 <= i < report.len() && signature_value(#[trigger] report[i]) is Some
}

/// What a report comes to: the number where both a number and a signature are given, else zero
/// and a warning.
pub open spec fn report_info(report: Seq<Seq<char>>) -> RevisionInfoView {
    if reports_signature(report) && reported_number(report).len() > 0 {
        RevisionInfoView { revision_number: reported_number(report), warning: Seq::empty() }
    } else {
        RevisionInfoView {
            revision_number: "0"@,
            warning: seq![
                "Failed to execute Lore to get revision information, no data extracted"@,
            ],
        }
    }
}

/// The revision number that a line gives.
fn revision_in(line: &str) -> (r: Option<String>)
    ensures
        match r {
            Some(number) => revision_value(line@) == Some(number@),
            None => revision_value(line@) is None,
        },
{
    let chars = chars_of(line);
    if !starts_with(chars.as_slice(), "Revision ") {
        return None;
    }
    match text_after(line, ':') {
        Some(number) => Some(trim_text(number.as_str())),
        None => match text_after(line, ' ') {
            Some(number) => Some(trim_text(number.as_str())),
            None => None,
        },
    }
}

/// The signature that a line gives.
fn signature_in(line: &str) -> (r: Option<String>)
    ensures
        match r {
            Some(signature) => signature_value(line@) == Some(signature@),
            None => signature_value(line@) is None,
        },
{
    let chars = chars_of(line);
    if starts_with(chars.as_slice(), "Revision ") {
        return None;
    }
    let rest = if starts_with(chars.as_slice(), "Signature: ") {
        text_after(line, ' ')
    } else if starts_with(chars.as_slice(), "Signature ") {
        text_after(line, ':')
    } else {
        None
    };
    match rest {
        Some(signature) => Some(trim_text(signature.as_str())),
        None => None,
    }
}

/// Whether every signature of a report can be cut to the bytes that are kept.
pub fn report_is_sound(report: &str) -> (r: bool)
    ensures
        r == signatures_fit(lines(report@)),
{
    let all = split_lines(report);
    let ghost texts = lines(report@);
    let mut i: usize = 0;
    while i < all.len()
        invariant
            i <= all@.len(),
            texts == lines(report@),
            views(all@) == texts,
            forall|k: int| 0 <= k < i ==> signature_fits(#[trigger] texts[k]),
        decreases all@.len() - i,
    {
        assert(texts[i as int] == all@[i as int]@);
        if let Some(signature) = signature_in(all[i].as_str()) {
            if prefix_of_bytes(signature.as_str(), SIGNATURE_LENGTH).is_none() {
                assert(!signature_fits(texts[i as int]));
                return false;
            }
        }
        i = i + 1;
    }
    assert(texts.len() == all@.len());
    true
}

/// Read a report of the Lore command line.
pub fn read_report(report: &str) -> (r: RevisionInfo)
    requires
        signatures_fit(lines(report@)),
    ensures
        r@ == report_info(lines(report@)),
{
    let all = split_lines(report);
    let ghost texts = lines(report@);
    let mut revision = String::new();
    let mut revision_number = String::new();
    let mut i: usize = 0;
    assert(revision@ =~= Seq::empty());
    assert(revision_number@ =~= reported_number(texts.take(0)));
    while i < all.len()
        invariant
            i <= all@.len(),
            texts == lines(report@),
            views(all@) == texts,
            signatures_fit(texts),
            revision@.len() > 0 <==> reports_signature(texts.take(i as int)),
            revision_number@ == reported_number(texts.take(i as int)),
        decreases all@.len() - i,
    {
        let line = all[i].as_str();
        let ghost seen = texts.take(i as int);
        let ghost more = texts.take(i + 1);
        assert(texts[i as int] == line@);
        assert(more.drop_last() =~= seen);
        assert(more.last() == line@);
        assert(signature_fits(texts[i as int]));
        if let Some(number) = revision_in(line) {
            revision_number = number;
        } else if let Some(signature) = signature_in(line) {
            let cut = prefix_of_bytes(signature.as_str(), SIGNATURE_LENGTH);
            if let Some(kept) = cut {
                revision = kept;
                assert(revision@.len() > 0);
            }
        }
        proof {
            if reports_signature(seen) {
                let k = choose|k: int|
                    0 <= k < seen.len() && signature_value(#[trigger] seen[k]) is Some;
                assert(signature_value(more[k]) is Some);
            }
            if reports_signature(more) {
                let k = choose|k: int|
                    0 <= k < more.len() && signature_value(#[trigger] more[k]) is Some;
                if k < i {
                    assert(signature_value(seen[k]) is Some);
                }
            }
            if signature_value(line@) is Some {
                assert(signature_value(more[i as int]) is Some);
            }
        }
        i = i + 1;
    }
    assert(texts.len() == all@.len());
    assert(texts.take(i as int) =~= texts);
    if revision.as_str().is_empty() || revision_number.as_str().is_empty() {
        let mut warning: Vec<String> = Vec::new();
        warning.push(
            "Failed to execute Lore to get revision information, no data extracted".to_owned(),
        );
        assert(views(warning@) =~= report_info(texts).warning);
        RevisionInfo { revision_number: "0".to_owned(), warning }
    } else {
        let warning: Vec<String> = Vec::new();
        assert(views(warning@) =~= Seq::empty());
        RevisionInfo { revision_number, warning }
    }
}

/// The text of what the Lore command line printed; empty where that is no text.
pub open spec fn printed_text(stdout: Seq<u8>) -> Seq<char> {
    if valid_utf8(stdout) {
        decode_utf8(stdout)
    } else {
        Seq::empty()
    }
}

/// The text of what the Lore command line printed.
pub fn report_text(stdout: &[u8]) -> (r: String)
    ensures
        r@ == printed_text(stdout@),
{
    match from_utf8(stdout) {
        Some(text) => text,
        None => {
            let empty = String::new();
            assert(empty@ =~= Seq::empty());
            empty
        },
    }
}

/// What a failure to run the Lore command line comes to.
pub fn revision_unavailable(error: &str) -> (r: RevisionInfo)
    ensures
        r@.revision_number == "0"@,
        r@.warning == seq![
            "Failed to execute Lore to get revision information, unknown version generated: "@
                + error@,
        ],
{
    let mut message =
        "Failed to execute Lore to get revision information, unknown version generated: ".to_owned();
    message.append(error);
    let mut warning: Vec<String> = Vec::new();
    warning.push(message);
    let r = RevisionInfo { revision_number: "0".to_owned(), warning };
    assert(r@.warning =~= seq![
        "Failed to execute Lore to get revision information, unknown version generated: "@ + error@,
    ]);
    r
}

/// What is stamped into a binary, and what went wrong in finding it.
#[derive(Debug)]
pub struct LoreVergen {
    pub lore_library_version_name: String,
    pub build_sha: String,
    pub warning: Vec<String>,
}

/// A variable and the value it is given.
#[derive(Debug)]
pub struct StampedVariable {
    pub name: String,
    pub value: String,
}

impl LoreVergen {
    /// Put together what is stamped: the version of the package, with the name that the build was
    /// given or else the revision number behind it.
    pub fn new(
        package_version: &str,
        version_name: Option<&str>,
        revision: RevisionInfo,
        build_sha: String,
    ) -> (r: LoreVergen)
        ensures
            r.lore_library_version_name@ == package_version@ + "+"@ + match version_name {
                Some(name) => name@,
                None => revision@.revision_number,
            },
            r.build_sha@ == build_sha@,
            views(r.warning@) == if version_name is Some {
                Seq::empty()
            } else {
                revision@.warning
            },
    {
        let mut name = package_version.to_owned();
        name.append("+");
        match version_name {
            Some(given) => {
                name.append(given);
                let warning: Vec<String> = Vec::new();
                assert(views(warning@) =~= Seq::empty());
                LoreVergen { lore_library_version_name: name, build_sha, warning }
            },
            None => {
                name.append(revision.revision_number.as_str());
                LoreVergen {
                    lore_library_version_name: name,
                    build_sha,
                    warning: revision.warning,
                }
            },
        }
    }

    /// The variables that carry the stamp into the binary.
    pub fn entries(&self) -> (r: Vec<StampedVariable>)
        ensures
            r@.len() == 2,
            r@[0].name@ == VERSION_NAME_KEY@,
            r@[0].value@ == self.lore_library_version_name@,
            r@[1].name@ == BUILD_SHA_KEY@,
            r@[1].value@ == self.build_sha@,
    {
        let mut entries: Vec<StampedVariable> = Vec::new();
        entries.push(
            StampedVariable {
                name: VERSION_NAME_KEY.to_owned(),
                value: self.lore_library_version_name.as_str().to_owned(),
            },
        );
        entries.push(
            StampedVariable {
                name: BUILD_SHA_KEY.to_owned(),
                value: self.build_sha.as_str().to_owned(),
            },
        );
        entries
    }
}

/// How many of the leading components of a path make up the directory of the build profile: those
/// above the last component named `build`. A parent component ends the search.
pub open spec fn profile_depth(components: Seq<Seq<char>>) -> Option<nat>
    decreases components.len(),
{
    if components.len() == 0 || components.last() == ".."@ {
        None
    } else if components.last() == "build"@ {
        Some((components.len() - 1) as nat)
    } else {
        profile_depth(components.drop_last())
    }
}

/// How many of the leading components of a path make up the directory of the build profile.
pub fn profile_dir(components: &Vec<String>) -> (r: Option<usize>)
    ensures
        match r {
            Some(depth) => profile_depth(views(components@)) == Some(depth as nat),
            None => profile_depth(views(components@)) is None,
        },
        r matches Some(depth) ==> depth < components@.len(),
{
    let ghost all = views(components@);
    let mut i: usize = components.len();
    assert(all.take(i as int) =~= all);
    while i > 0
        invariant
            i <= components@.len(),
            all == views(components@),
            profile_depth(all) == profile_depth(all.take(i as int)),
        decreases i,
    {
        let name = components[i - 1].as_str();
        assert(all.take(i as int).last() == name@);
        assert(all.take(i as int).drop_last() =~= all.take(i - 1));
        if same_text(name, "..") {
            return None;
        }
        if same_text(name, "build") {
            return Some(i - 1);
        }
        i = i - 1;
    }
    None
}

/// The name of the build profile: that of its directory, where it has one.
pub open spec fn profile_name_of(components: Seq<Seq<char>>) -> Option<Seq<char>> {
    match profile_depth(components) {
        Some(depth) if depth > 0 && components[depth - 1] != ".."@ => Some(components[depth - 1]),
        _ => None,
    }
}

/// The name of the build profile.
pub fn profile_name(components: &Vec<String>) -> (r: Option<String>)
    ensures
        match r {
            Some(name) => profile_name_of(views(components@)) == Some(name@),
            None => profile_name_of(views(components@)) is None,
        },
{
    match profile_dir(components) {
        Some(depth) => if depth > 0 && !same_text(components[depth - 1].as_str(), "..") {
            Some(components[depth - 1].as_str().to_owned())
        } else {
            None
        },
        None => None,
    }
}

/// The variable names the build commit unless it is blank; then git does, unless it says nothing;
/// and else it is unknown. White space around an answer does not count.
pub proof fn law_build_commit_is_the_first_answer(variable: Seq<char>, git: Seq<char>)
    ensures
        trimmed(variable).len() > 0 ==> build_sha_of(Some(variable), Some(git)) == trimmed(variable)
            && build_sha_of(Some(variable), None) == trimmed(variable),
        trimmed(variable).len() == 0 && trimmed(git).len() > 0 ==> build_sha_of(
            Some(variable),
            Some(git),
        ) == trimmed(git),
        trimmed(git).len() > 0 ==> build_sha_of(None, Some(git)) == trimmed(git),
        trimmed(variable).len() == 0 && trimmed(git).len() == 0 ==> build_sha_of(
            Some(variable),
            Some(git),
        ) == "unknown"@ && build_sha_of(None, Some(git)) == "unknown"@ && build_sha_of(
            Some(variable),
            None,
        ) == "unknown"@,
        build_sha_of(None, None) == "unknown"@,
{
}

/// A revision line gives what stands behind its first colon, without the white space around it; one
/// without a colon, as older versions have it, what stands behind its first space.
pub proof fn law_revision_line_gives_its_number(middle: Seq<char>, number: Seq<char>)
    requires
        !middle.contains(':'),
    ensures
        revision_value("Revision "@ + middle + seq![':'] + number) == Some(trimmed(number)),
        revision_value("Revision "@ + middle) == Some(trimmed(middle)),
        signature_value("Revision "@ + middle) is None,
{
    reveal_strlit("Revision ");
    let key = "Revision "@;
    let line = key + middle + seq![':'] + number;
    assert(line.take(key.len() as int) =~= key);
    let start = key + middle;
    assert(!start.contains(':')) by {
        if start.contains(':') {
            let i = choose|i: int| 0 <= i < start.len() && start[i] == ':';
            if i >= key.len() {
                assert(middle.contains(middle[i - key.len()]));
            }
        }
    }
    law_split_at_the_first(start, ':', number);
    assert(start.take(key.len() as int) =~= key);
    let word = key.drop_last();
    assert(!word.contains(' '));
    law_split_at_the_first(word, ' ', middle);
    assert(word + seq![' '] + middle =~= start);
}

/// A signature line gives what stands behind its colon, without the white space around it, whether
/// or not a space stands before the colon.
pub proof fn law_signature_line_gives_its_signature(middle: Seq<char>, signature: Seq<char>)
    requires
        !middle.contains(':'),
    ensures
        signature_value("Signature "@ + middle + seq![':'] + signature) == Some(trimmed(signature)),
        signature_value("Signature: "@ + signature) == Some(trimmed(signature)),
{
    reveal_strlit("Revision ");
    reveal_strlit("Signature ");
    reveal_strlit("Signature: ");
    let key = "Signature "@;
    let older = "Signature: "@;
    let line = key + middle + seq![':'] + signature;
    assert(line[0] == 'S');
    assert(line.take("Revision "@.len() as int)[0] == 'S');
    assert("Revision "@[0] == 'R');
    assert(line[9] == ' ');
    assert(line.take(older.len() as int)[9] == ' ');
    assert(older[9] == ':');
    assert(line.take(key.len() as int) =~= key);
    let start = key + middle;
    assert(!start.contains(':')) by {
        if start.contains(':') {
            let i = choose|i: int| 0 <= i < start.len() && start[i] == ':';
            if i >= key.len() {
                assert(middle.contains(middle[i - key.len()]));
            }
        }
    }
    law_split_at_the_first(start, ':', signature);
    let other = older + signature;
    assert(other.take("Revision "@.len() as int)[0] == 'S');
    assert(other.take(older.len() as int) =~= older);
    let word = older.drop_last();
    assert(!word.contains(' '));
    law_split_at_the_first(word, ' ', signature);
    assert(word + seq![' '] + signature =~= other);
}

/// A report comes to the last number that a line of it gives, when a line gives a signature and that
/// number is not empty; and else to zero with a warning.
pub proof fn law_report_comes_to_its_last_number(report: Seq<Seq<char>>, k: int)
    requires
        0 <= k < report.len(),
        revision_value(report[k]) is Some,
        forall|i: int| k < i < report.len() ==> revision_value(#[trigger] report[i]) is None,
    ensures
        ({
            let signed = exists|i: int|
                0 <= i < report.len() && signature_value(#[trigger] report[i]) is Some;
            let number = revision_value(report[k])->0;
            &&& signed && number.len() > 0 ==> report_info(report).revision_number == number
                && report_info(report).warning.len() == 0
            &&& !signed || number.len() == 0 ==> report_info(report).revision_number == "0"@
                && report_info(report).warning == seq![
                "Failed to execute Lore to get revision information, no data extracted"@,
            ]
        }),
    decreases report.len(),
{
    lemma_last_number(report, k);
}

proof fn lemma_last_number(report: Seq<Seq<char>>, k: int)
    requires
        0 <= k < report.len(),
        revision_value(report[k]) is Some,
        forall|i: int| k < i < report.len() ==> revision_value(#[trigger] report[i]) is None,
    ensures
        reported_number(report) == revision_value(report[k])->0,
    decreases report.len(),
{
    if k < report.len() - 1 {
        assert(revision_value(report[report.len() - 1]) is None);
        let earlier = report.drop_last();
        assert forall|i: int| k < i < earlier.len() implies revision_value(
            #[trigger] earlier[i],
        ) is None by {
            assert(revision_value(report[i]) is None);
        }
        lemma_last_number(earlier, k);
    }
}

/// A report without a revision number comes to zero and a warning.
pub proof fn law_report_without_a_number_is_warned_of(report: Seq<Seq<char>>)
    requires
        forall|i: int| 0 <= i < report.len() ==> revision_value(#[trigger] report[i]) is None,
    ensures
        report_info(report).revision_number == "0"@,
        report_info(report).warning == seq![
            "Failed to execute Lore to get revision information, no data extracted"@,
        ],
{
    lemma_no_number(report);
}

proof fn lemma_no_number(report: Seq<Seq<char>>)
    requires
        forall|i: int| 0 <= i < report.len() ==> revision_value(#[trigger] report[i]) is None,
    ensures
        reported_number(report).len() == 0,
    decreases report.len(),
{
    if report.len() > 0 {
        assert(revision_value(report[report.len() - 1]) is None);
        let earlier = report.drop_last();
        assert forall|i: int| 0 <= i < earlier.len() implies revision_value(
            #[trigger] earlier[i],
        ) is None by {
            assert(revision_value(report[i]) is None);
        }
        lemma_no_number(earlier);
    }
}

/// The directory of the build profile is what lies above the last component named `build`, when no
/// parent component comes behind that; its name is the last component of it.
pub proof fn law_profile_lies_above_the_last_build(
    above: Seq<Seq<char>>,
    below: Seq<Seq<char>>,
)
    requires
        forall|i: int|
            0 <= i < below.len() ==> #[trigger] below[i] != "build"@ && below[i] != ".."@,
    ensures
        profile_depth(above + seq!["build"@] + below) == Some(above.len()),
        profile_depth(below) is None,
        above.len() > 0 && above.last() != ".."@ ==> profile_name_of(
            above + seq!["build"@] + below,
        ) == Some(above.last()),
        above.len() == 0 ==> profile_name_of(above + seq!["build"@] + below) is None,
    decreases below.len(),
{
    reveal_strlit("build");
    reveal_strlit("..");
    let all = above + seq!["build"@] + below;
    if below.len() > 0 {
        let shorter = below.drop_last();
        assert forall|i: int| 0 <= i < shorter.len() implies #[trigger] shorter[i] != "build"@
            && shorter[i] != ".."@ by {
            assert(below[i] != "build"@);
        }
        assert(below[below.len() - 1] != "build"@);
        law_profile_lies_above_the_last_build(above, shorter);
        assert(all.drop_last() =~= above + seq!["build"@] + shorter);
        assert(all.last() == below.last());
    } else {
        assert(all =~= above.push("build"@));
        assert("build"@.len() == 5 && ".."@.len() == 2);
    }
    if above.len() > 0 {
        assert(all[above.len() - 1] == above.last());
    }
}

/// A report that is text is read as that text, and one that is not as an empty text.
pub proof fn law_report_is_read_as_the_text_it_is(text: Seq<char>, other: Seq<u8>)
    ensures
        printed_text(encode_utf8(text)) == text,
        !valid_utf8(other) ==> printed_text(other).len() == 0,
{
    encode_utf8_valid_utf8(text);
    encode_utf8_decode_utf8(text);
}

} // verus!
