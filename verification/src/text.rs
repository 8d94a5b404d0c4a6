//! Text primitives: the handful of string operations the rest of the crate needs, each stated
//! over the characters of its argument.

use vstd::prelude::*;
use vstd::string::*;

verus! {

/// `String::push`: appends one character to the end of the string.
pub assume_specification[ String::push ](s: &mut String, c: char)
    ensures
        final(s)@ == old(s)@.push(c),
;

/// The views of a list of strings.
pub open spec fn views(v: Seq<String>) -> Seq<Seq<char>> {
    v.map_values(|s: String| s@)
}

/// The Unicode `White_Space` property.
pub open spec fn is_white_space(c: char) -> bool {
    let u = c as u32;
    ||| 0x09 <= u <= 0x0d
    ||| u == 0x20
    ||| u == 0x85
    ||| u == 0xa0
    ||| u == 0x1680
    ||| 0x2000 <= u <= 0x200a
    ||| u == 0x2028
    ||| u == 0x2029
    ||| u == 0x202f
    ||| u == 0x205f
    ||| u == 0x3000
}

/// Whether `s` begins with `prefix`.
pub open spec fn has_prefix(s: Seq<char>, prefix: Seq<char>) -> bool {
    &&& prefix.len() <= s.len()
    &&& s.take(prefix.len() as int) == prefix
}

/// Whether `needle` occurs in `s` as a contiguous run.
pub open spec fn contains_text(s: Seq<char>, needle: Seq<char>) -> bool {
    exists|i: int|
        0 <= i && i + needle.len() <= s.len() && #[trigger] s.subrange(i, i + needle.len())
            == needle
}

/// `s` without its leading white space.
pub open spec fn trim_start(s: Seq<char>) -> Seq<char>
    decreases s.len(),
{
    if s.len() > 0 && is_white_space(s[0]) {
        trim_start(s.skip(1))
    } else {
        s
    }
}

/// `s` without its trailing white space.
pub open spec fn trim_end(s: Seq<char>) -> Seq<char>
    decreases s.len(),
{
    if s.len() > 0 && is_white_space(s.last()) {
        trim_end(s.drop_last())
    } else {
        s
    }
}

/// `s` without leading and trailing white space.
pub open spec fn trimmed(s: Seq<char>) -> Seq<char> {
    trim_end(trim_start(s))
}

/// Index of the first `c` in `s`, or the length of `s` when there is none.
pub open spec fn first_index(s: Seq<char>, c: char) -> int
    decreases s.len(),
{
    if s.len() == 0 || s[0] == c {
        0
    } else {
        1 + first_index(s.skip(1), c)
    }
}

/// Index of the last `c` in `s`, or `-1` when there is none.
pub open spec fn last_index(s: Seq<char>, c: char) -> int
    decreases s.len(),
{
    if s.len() == 0 {
        -1
    } else if s.last() == c {
        s.len() - 1
    } else {
        last_index(s.drop_last(), c)
    }
}

/// What stands before and after the first `c`, when there is one.
pub open spec fn split_once(s: Seq<char>, c: char) -> Option<(Seq<char>, Seq<char>)> {
    let i = first_index(s, c);
    if i < s.len() {
        Some((s.take(i), s.skip(i + 1)))
    } else {
        None
    }
}

/// A line without the carriage return that precedes its line feed.
pub open spec fn strip_carriage_return(s: Seq<char>) -> Seq<char> {
    if s.len() > 0 && s.last() == '\r' {
        s.drop_last()
    } else {
        s
    }
}

/// The lines of a text: a line ends at `\n` or `\r\n`, and a final line needs no terminator.
pub open spec fn lines(s: Seq<char>) -> Seq<Seq<char>>
    decreases s.len(),
    via lines_decreases
{
    if s.len() == 0 {
        Seq::empty()
    } else {
        let i = first_index(s, '\n');
        if i < s.len() {
            seq![strip_carriage_return(s.take(i))] + lines(s.skip(i + 1))
        } else {
            seq![s]
        }
    }
}

#[via_fn]
proof fn lines_decreases(s: Seq<char>) {
    lemma_first_index(s, '\n');
}

/// The maximal runs of characters that are not white space, in order.
pub open spec fn tokens(s: Seq<char>) -> Seq<Seq<char>>
    decreases s.len(),
{
    if s.len() == 0 {
        Seq::empty()
    } else {
        let before = tokens(s.drop_last());
        let c = s.last();
        if is_white_space(c) {
            before
        } else if s.len() > 1 && !is_white_space(s[s.len() - 2]) {
            before.drop_last().push(before.last().push(c))
        } else {
            before.push(seq![c])
        }
    }
}

/// What `first_index` finds: the first position that holds `c`.
pub proof fn lemma_first_index(s: Seq<char>, c: char)
    ensures
        0 <= first_index(s, c) <= s.len(),
        first_index(s, c) < s.len() ==> s[first_index(s, c)] == c,
        forall|j: int| 0 <= j < first_index(s, c) ==> s[j] != c,
    decreases s.len(),
{
    if s.len() != 0 && s[0] != c {
        lemma_first_index(s.skip(1), c);
        assert forall|j: int| 0 <= j < first_index(s, c) implies s[j] != c by {
            if j > 0 {
                assert(s.skip(1)[j - 1] == s[j]);
            }
        }
    }
}

/// A position that holds `c` while no earlier one does is the first index.
pub proof fn lemma_first_index_is(s: Seq<char>, c: char, i: int)
    requires
        0 <= i <= s.len(),
        i < s.len() ==> s[i] == c,
        forall|j: int| 0 <= j < i ==> s[j] != c,
    ensures
        first_index(s, c) == i,
{
    lemma_first_index(s, c);
}

/// What `last_index` finds: the last position that holds `c`.
pub proof fn lemma_last_index(s: Seq<char>, c: char)
    ensures
        -1 <= last_index(s, c) < s.len(),
        last_index(s, c) >= 0 ==> s[last_index(s, c)] == c,
        forall|j: int| last_index(s, c) < j < s.len() ==> s[j] != c,
    decreases s.len(),
{
    if s.len() != 0 && s.last() != c {
        lemma_last_index(s.drop_last(), c);
        assert forall|j: int| last_index(s, c) < j < s.len() implies s[j] != c by {
            if j < s.len() - 1 {
                assert(s.drop_last()[j] == s[j]);
            }
        }
    }
}

/// Text that is `a`, then `b`, then `c` holds `b`.
pub proof fn lemma_contains_middle(a: Seq<char>, b: Seq<char>, c: Seq<char>)
    ensures
        contains_text(a + b + c, b),
{
    assert((a + b + c).subrange(a.len() as int, (a.len() + b.len()) as int) =~= b);
}

/// The characters of a string.
pub fn chars_of(s: &str) -> (r: Vec<char>)
    ensures
        r@ == s@,
{
    let mut out: Vec<char> = Vec::new();
    for c in it: s.chars()
        invariant
            it.seq() == s@,
            out@ == it.seq().take(it.index()),
    {
        out.push(c);
        assert(out@ =~= it.seq().take(it.index() + 1));
    }
    assert(out@ =~= s@);
    out
}

/// The string that a run of characters spells.
pub fn string_of(chars: &[char], from: usize, to: usize) -> (r: String)
    requires
        from <= to <= chars@.len(),
    ensures
        r@ == chars@.subrange(from as int, to as int),
{
    let mut out = String::new();
    let mut i: usize = from;
    while i < to
        invariant
            from <= i <= to <= chars@.len(),
            out@ == chars@.subrange(from as int, i as int),
        decreases to - i,
    {
        out.push(chars[i]);
        i = i + 1;
        assert(out@ =~= chars@.subrange(from as int, i as int));
    }
    out
}

/// Whether two strings hold the same characters.
pub fn same_text(a: &str, b: &str) -> (r: bool)
    ensures
        r == (a@ == b@),
{
    a.to_owned() == b.to_owned()
}

/// Whether a character has the Unicode `White_Space` property.
pub(crate) fn white_space(c: char) -> (r: bool)
    ensures
        r == is_white_space(c),
{
    let u: u32 = c as u32;
    (0x09 <= u && u <= 0x0d) || u == 0x20 || u == 0x85 || u == 0xa0 || u == 0x1680 || (0x2000 <= u
        && u <= 0x200a) || u == 0x2028 || u == 0x2029 || u == 0x202f || u == 0x205f || u == 0x3000
}

/// Whether `s` begins with `prefix`.
pub(crate) fn starts_with(s: &[char], prefix: &str) -> (r: bool)
    ensures
        r == has_prefix(s@, prefix@),
{
    let p = chars_of(prefix);
    if p.len() > s.len() {
        return false;
    }
    let mut i: usize = 0;
    while i < p.len()
        invariant
            i <= p@.len() <= s@.len(),
            p@ == prefix@,
            s@.take(i as int) == p@.take(i as int),
        decreases p@.len() - i,
    {
        if s[i] != p[i] {
            assert(s@.take(p@.len() as int)[i as int] != p@[i as int]);
            return false;
        }
        assert(s@.take(i + 1) =~= s@.take(i as int).push(s@[i as int]));
        assert(p@.take(i + 1) =~= p@.take(i as int).push(p@[i as int]));
        i = i + 1;
    }
    assert(p@.take(p@.len() as int) =~= p@);
    true
}

/// Index of the first `c` at or after `from`, or the length of `s` when there is none.
pub(crate) fn find_char(s: &[char], from: usize, c: char) -> (r: usize)
    requires
        from <= s@.len(),
    ensures
        r == from + first_index(s@.skip(from as int), c),
        from <= r <= s@.len(),
{
    let mut i: usize = from;
    while i < s.len() && s[i] != c
        invariant
            from <= i <= s@.len(),
            forall|j: int| from <= j < i ==> s@[j] != c,
        decreases s@.len() - i,
    {
        i = i + 1;
    }
    proof {
        lemma_first_index_is(s@.skip(from as int), c, i - from);
    }
    i
}

/// Index of the last `c`, when there is one.
pub(crate) fn rfind_char(s: &[char], c: char) -> (r: Option<usize>)
    ensures
        match r {
            Some(i) => i == last_index(s@, c),
            None => last_index(s@, c) == -1,
        },
        r matches Some(i) ==> i < s@.len(),
{
    let mut i: usize = s.len();
    while i > 0
        invariant
            i <= s@.len(),
            forall|j: int| i <= j < s@.len() ==> s@[j] != c,
        decreases i,
    {
        i = i - 1;
        if s[i] == c {
            proof {
                lemma_last_index(s@, c);
            }
            return Some(i);
        }
    }
    proof {
        lemma_last_index(s@, c);
    }
    None
}

/// The bounds of `s` without its leading and trailing white space.
pub(crate) fn trim_bounds(s: &[char]) -> (r: (usize, usize))
    ensures
        r.0 <= r.1 <= s@.len(),
        s@.subrange(r.0 as int, r.1 as int) == trimmed(s@),
{
    let mut from: usize = 0;
    assert(s@.skip(0) =~= s@);
    while from < s.len() && white_space(s[from])
        invariant
            from <= s@.len(),
            trim_start(s@.skip(from as int)) == trim_start(s@),
        decreases s@.len() - from,
    {
        assert(s@.skip(from as int).skip(1) =~= s@.skip(from + 1));
        from = from + 1;
    }
    assert(trim_start(s@) == s@.skip(from as int));
    let mut to: usize = s.len();
    assert(s@.subrange(from as int, to as int) =~= s@.skip(from as int));
    while to > from && white_space(s[to - 1])
        invariant
            from <= to <= s@.len(),
            trim_end(s@.subrange(from as int, to as int)) == trim_end(s@.skip(from as int)),
        decreases to,
    {
        assert(s@.subrange(from as int, to as int).drop_last() =~= s@.subrange(
            from as int,
            to - 1,
        ));
        to = to - 1;
    }
    (from, to)
}

/// A string without its leading and trailing white space.
pub fn trim_text(s: &str) -> (r: String)
    ensures
        r@ == trimmed(s@),
{
    let chars = chars_of(s);
    let (from, to) = trim_bounds(chars.as_slice());
    string_of(chars.as_slice(), from, to)
}

/// What stands after the first `c`, when there is one.
pub fn text_after(s: &str, c: char) -> (r: Option<String>)
    ensures
        match r {
            Some(after) => split_once(s@, c) matches Some(parts) && parts.1 == after@,
            None => split_once(s@, c) is None,
        },
{
    let chars = chars_of(s);
    let at = find_char(chars.as_slice(), 0, c);
    assert(chars@.skip(0) =~= s@);
    if at < chars.len() {
        let after = string_of(chars.as_slice(), at + 1, chars.len());
        assert(after@ =~= s@.skip(at + 1));
        Some(after)
    } else {
        None
    }
}

/// The lines of a text.
pub fn split_lines(s: &str) -> (r: Vec<String>)
    ensures
        views(r@) == lines(s@),
{
    let chars = chars_of(s);
    let mut out: Vec<String> = Vec::new();
    let mut at: usize = 0;
    assert(chars@.skip(0) =~= s@);
    assert(views(out@) + lines(s@) =~= lines(s@));
    while at < chars.len()
        invariant
            at <= chars@.len(),
            chars@ == s@,
            views(out@) + lines(chars@.skip(at as int)) == lines(s@),
        decreases chars@.len() - at,
    {
        let end = find_char(chars.as_slice(), at, '\n');
        let ghost rest = chars@.skip(at as int);
        let ghost before = views(out@);
        if end < chars.len() {
            let mut stop: usize = end;
            if stop > at && chars[stop - 1] == '\r' {
                stop = stop - 1;
            }
            let line = string_of(chars.as_slice(), at, stop);
            assert(line@ =~= strip_carriage_return(rest.take(end - at)));
            assert(rest.skip(end - at + 1) =~= chars@.skip(end + 1));
            out.push(line);
            assert(views(out@) =~= before.push(line@));
            assert(views(out@) + lines(chars@.skip(end + 1)) =~= before + lines(rest));
            at = end + 1;
        } else {
            let line = string_of(chars.as_slice(), at, end);
            assert(line@ =~= rest);
            out.push(line);
            assert(views(out@) =~= before.push(line@));
            at = end;
            assert(chars@.skip(at as int) =~= Seq::<char>::empty());
            assert(views(out@) + lines(chars@.skip(at as int)) =~= before + lines(rest));
        }
    }
    assert(chars@.skip(at as int) =~= Seq::<char>::empty());
    assert(views(out@) =~= lines(s@));
    out
}

/// The maximal runs of characters that are not white space.
pub fn split_tokens(s: &str) -> (r: Vec<String>)
    ensures
        views(r@) == tokens(s@),
{
    let chars = chars_of(s);
    let mut out: Vec<String> = Vec::new();
    let mut i: usize = 0;
    let mut start: usize = 0;
    assert(views(out@) =~= tokens(chars@.take(0)));
    while i < chars.len()
        invariant
            start <= i <= chars@.len(),
            chars@ == s@,
            start < i ==> !is_white_space(chars@[i - 1]),
            i > 0 && !is_white_space(chars@[i - 1]) ==> start < i,
            tokens(chars@.take(i as int)) == if start < i {
                views(out@).push(chars@.subrange(start as int, i as int))
            } else {
                views(out@)
            },
        decreases chars@.len() - i,
    {
        let ghost done = chars@.take(i as int);
        let ghost next = chars@.take(i + 1);
        assert(next.drop_last() =~= done);
        let ghost before = views(out@);
        if white_space(chars[i]) {
            if start < i {
                let token = string_of(chars.as_slice(), start, i);
                out.push(token);
                assert(views(out@) =~= before.push(token@));
            }
            start = i + 1;
        } else {
            if start < i {
                let ghost run = chars@.subrange(start as int, i as int);
                assert(tokens(done).drop_last() =~= before);
                assert(run.push(chars@[i as int]) =~= chars@.subrange(start as int, i + 1));
            } else {
                start = i;
                assert(chars@.subrange(start as int, i + 1) =~= seq![chars@[i as int]]);
            }
        }
        i = i + 1;
    }
    assert(chars@.take(i as int) =~= s@);
    if start < i {
        let token = string_of(chars.as_slice(), start, i);
        let ghost before = views(out@);
        out.push(token);
        assert(views(out@) =~= before.push(token@));
    }
    out
}

/// The number of bytes that UTF-8 needs for a character.
pub open spec fn utf8_width(c: char) -> nat {
    if (c as u32) < 0x80 {
        1
    } else if (c as u32) < 0x800 {
        2
    } else if (c as u32) < 0x1_0000 {
        3
    } else {
        4
    }
}

/// The first characters of a text that together take exactly `n` bytes in UTF-8, when there are
/// such.
pub open spec fn byte_prefix(s: Seq<char>, n: nat) -> Option<Seq<char>>
    decreases s.len(),
{
    if n == 0 {
        Some(Seq::empty())
    } else if s.len() == 0 || utf8_width(s[0]) > n {
        None
    } else {
        match byte_prefix(s.skip(1), (n - utf8_width(s[0])) as nat) {
            Some(rest) => Some(seq![s[0]] + rest),
            None => None,
        }
    }
}

/// The number of bytes that UTF-8 needs for a character.
fn width_of(c: char) -> (r: usize)
    ensures
        r == utf8_width(c),
{
    let u: u32 = c as u32;
    if u < 0x80 {
        1
    } else if u < 0x800 {
        2
    } else if u < 0x1_0000 {
        3
    } else {
        4
    }
}

/// The first characters of a text that together take exactly `n` bytes in UTF-8.
pub fn prefix_of_bytes(s: &str, n: usize) -> (r: Option<String>)
    ensures
        match r {
            Some(prefix) => byte_prefix(s@, n as nat) == Some(prefix@),
            None => byte_prefix(s@, n as nat) is None,
        },
{
    let chars = chars_of(s);
    let mut out = String::new();
    let mut i: usize = 0;
    let mut left: usize = n;
    assert(chars@.skip(0) =~= s@);
    while left > 0
        invariant
            i <= chars@.len(),
            left <= n,
            out@ == chars@.take(i as int),
            chars@ == s@,
            byte_prefix(s@, n as nat) == match byte_prefix(chars@.skip(i as int), left as nat) {
                Some(rest) => Some(out@ + rest),
                None => None,
            },
        decreases left,
    {
        let ghost rest = chars@.skip(i as int);
        if i == chars.len() {
            return None;
        }
        let width = width_of(chars[i]);
        assert(rest[0] == chars@[i as int]);
        if width > left {
            return None;
        }
        assert(rest.skip(1) =~= chars@.skip(i + 1));
        let ghost before = out@;
        out.push(chars[i]);
        assert(out@ =~= chars@.take(i + 1));
        proof {
            if let Some(later) = byte_prefix(rest.skip(1), (left - width) as nat) {
                assert(before + (seq![rest[0]] + later) =~= out@ + later);
            }
        }
        left = left - width;
        i = i + 1;
    }
    assert(out@ + Seq::<char>::empty() =~= out@);
    Some(out)
}

/// A prefix by bytes is a prefix.
pub proof fn lemma_byte_prefix(s: Seq<char>, n: nat)
    ensures
        byte_prefix(s, n) matches Some(prefix) ==> has_prefix(s, prefix),
    decreases s.len(),
{
    assert(s.take(0) =~= Seq::empty());
    if n > 0 && s.len() > 0 && utf8_width(s[0]) <= n {
        lemma_byte_prefix(s.skip(1), (n - utf8_width(s[0])) as nat);
        if let Some(rest) = byte_prefix(s.skip(1), (n - utf8_width(s[0])) as nat) {
            let prefix = seq![s[0]] + rest;
            assert(s.take(prefix.len() as int) =~= prefix) by {
                assert forall|i: int| 1 <= i < prefix.len() implies s[i] == prefix[i] by {
                    assert(s.skip(1).take(rest.len() as int)[i - 1] == rest[i - 1]);
                }
            }
        }
    }
}

/// A prefix by bytes that takes one byte for each character has as many characters as bytes.
pub proof fn lemma_byte_prefix_narrow(s: Seq<char>, n: nat)
    requires
        byte_prefix(s, n) is Some,
        forall|i: int|
            0 <= i < byte_prefix(s, n)->0.len() ==> utf8_width(#[trigger] byte_prefix(s, n)->0[i])
                == 1,
    ensures
        byte_prefix(s, n)->0.len() == n,
    decreases s.len(),
{
    if n > 0 {
        let whole = byte_prefix(s, n)->0;
        let rest = byte_prefix(s.skip(1), (n - utf8_width(s[0])) as nat)->0;
        assert(whole == seq![s[0]] + rest);
        assert(utf8_width(whole[0]) == 1);
        assert forall|i: int| 0 <= i < rest.len() implies utf8_width(#[trigger] rest[i]) == 1 by {
            assert(whole[i + 1] == rest[i]);
        }
        lemma_byte_prefix_narrow(s.skip(1), (n - 1) as nat);
    }
}

/// A word behind text that ends in white space is a token of its own.
pub proof fn lemma_tokens_of_word(s: Seq<char>, word: Seq<char>)
    requires
        word.len() > 0,
        forall|i: int| 0 <= i < word.len() ==> !is_white_space(#[trigger] word[i]),
        s.len() == 0 || is_white_space(s.last()),
    ensures
        tokens(s + word) == tokens(s).push(word),
    decreases word.len(),
{
    let whole = s + word;
    let shorter = word.drop_last();
    assert(whole.drop_last() =~= s + shorter);
    assert(whole.last() == word.last());
    assert(!is_white_space(word[word.len() - 1]));
    if shorter.len() == 0 {
        assert(s + shorter =~= s);
        assert(word =~= seq![word.last()]);
        if s.len() > 0 {
            assert(whole[whole.len() - 2] == s.last());
        }
    } else {
        assert forall|i: int| 0 <= i < shorter.len() implies !is_white_space(
            #[trigger] shorter[i],
        ) by {
            assert(word[i] == shorter[i]);
        }
        lemma_tokens_of_word(s, shorter);
        assert(whole[whole.len() - 2] == word[word.len() - 2]);
        assert(tokens(s + shorter).drop_last() =~= tokens(s));
        assert(shorter.push(word.last()) =~= word);
    }
}

/// White space behind a text adds no token.
pub proof fn lemma_tokens_before_space(s: Seq<char>, space: char)
    requires
        is_white_space(space),
    ensures
        tokens(s.push(space)) == tokens(s),
{
    assert(s.push(space).drop_last() =~= s);
}

/// A character is white space exactly when it is one of these.
pub proof fn law_white_space_characters(c: char)
    ensures
        is_white_space(c) <==> {
            ||| c == '\t' || c == '\n' || c == '\u{b}' || c == '\u{c}' || c == '\r' || c == ' '
            ||| c == '\u{85}' || c == '\u{a0}' || c == '\u{1680}'
            ||| '\u{2000}' <= c && c <= '\u{200a}'
            ||| c == '\u{2028}' || c == '\u{2029}' || c == '\u{202f}' || c == '\u{205f}'
            ||| c == '\u{3000}'
        },
{
}

/// Whether a text is nothing but white space.
pub open spec fn is_blank(s: Seq<char>) -> bool {
    forall|i: int| 0 <= i < s.len() ==> is_white_space(#[trigger] s[i])
}

proof fn lemma_trim_start_blank(a: Seq<char>, s: Seq<char>)
    requires
        is_blank(a),
    ensures
        trim_start(a + s) == trim_start(s),
    decreases a.len(),
{
    if a.len() == 0 {
        assert(a + s =~= s);
    } else {
        assert(is_white_space(a[0]));
        assert((a + s)[0] == a[0]);
        assert((a + s).skip(1) =~= a.skip(1) + s);
        assert forall|i: int| 0 <= i < a.skip(1).len() implies is_white_space(
            #[trigger] a.skip(1)[i],
        ) by {
            assert(is_white_space(a[i + 1]));
        }
        lemma_trim_start_blank(a.skip(1), s);
    }
}

proof fn lemma_trim_end_blank(s: Seq<char>, b: Seq<char>)
    requires
        is_blank(b),
    ensures
        trim_end(s + b) == trim_end(s),
    decreases b.len(),
{
    if b.len() == 0 {
        assert(s + b =~= s);
    } else {
        assert(is_white_space(b[b.len() - 1]));
        assert((s + b).last() == b.last());
        assert((s + b).drop_last() =~= s + b.drop_last());
        assert forall|i: int| 0 <= i < b.drop_last().len() implies is_white_space(
            #[trigger] b.drop_last()[i],
        ) by {
            assert(is_white_space(b[i]));
        }
        lemma_trim_end_blank(s, b.drop_last());
    }
}

/// Trimming takes away the white space around a text and nothing of the text: what begins and ends
/// with other characters, or is empty, comes out of any white space put around it.
pub proof fn law_trimming_takes_the_white_space_around(
    a: Seq<char>,
    text: Seq<char>,
    b: Seq<char>,
)
    requires
        is_blank(a),
        is_blank(b),
        text.len() > 0 ==> !is_white_space(text[0]) && !is_white_space(text.last()),
    ensures
        trimmed(a + text + b) == text,
{
    assert(a + text + b =~= a + (text + b));
    lemma_trim_start_blank(a, text + b);
    if text.len() == 0 {
        assert(text + b =~= b);
        lemma_trim_start_blank(b, Seq::empty());
        assert(b + Seq::<char>::empty() =~= b);
        assert(text =~= Seq::empty());
        assert(trim_start(Seq::<char>::empty()) =~= Seq::empty());
    } else {
        assert((text + b)[0] == text[0]);
        assert(trim_start(text + b) == text + b);
        lemma_trim_end_blank(text, b);
    }
}

/// A text is split at the first of the characters: what stands before it holds none.
pub proof fn law_split_at_the_first(a: Seq<char>, c: char, b: Seq<char>)
    requires
        !a.contains(c),
    ensures
        split_once(a + seq![c] + b, c) == Some((a, b)),
        split_once(a, c) is None,
{
    let s = a + seq![c] + b;
    assert forall|j: int| 0 <= j < a.len() implies s[j] != c && a[j] != c by {
        assert(a.contains(a[j]));
    }
    lemma_first_index_is(s, c, a.len() as int);
    lemma_first_index_is(a, c, a.len() as int);
    assert(s.take(a.len() as int) =~= a);
    assert(s.skip(a.len() + 1int) =~= b);
}

/// A text begins with another exactly when it is that one with something behind it.
pub proof fn law_prefix_is_what_a_text_begins_with(s: Seq<char>, prefix: Seq<char>)
    ensures
        has_prefix(s, prefix) <==> exists|rest: Seq<char>| s == #[trigger] (prefix + rest),
{
    if has_prefix(s, prefix) {
        assert(s =~= prefix + s.skip(prefix.len() as int));
    }
    if exists|rest: Seq<char>| s == #[trigger] (prefix + rest) {
        let rest = choose|rest: Seq<char>| s == #[trigger] (prefix + rest);
        assert(s.take(prefix.len() as int) =~= prefix);
    }
}

/// A line and its terminator, in front of a text, are its first line: a line feed ends it, and a
/// carriage return right before that belongs to the terminator.
pub proof fn law_lines_end_at_line_feeds(line: Seq<char>, rest: Seq<char>)
    requires
        !line.contains('\n'),
    ensures
        line.len() == 0 || line.last() != '\r' ==> lines(line + seq!['\n'] + rest) == seq![line]
            + lines(rest),
        lines(line + seq!['\r', '\n'] + rest) == seq![line] + lines(rest),
        line.len() > 0 ==> lines(line) == seq![line],
        lines(Seq::empty()) == Seq::<Seq<char>>::empty(),
{
    law_split_at_the_first(line, '\n', rest);
    lemma_first_index(line + seq!['\n'] + rest, '\n');
    let s = line + seq!['\n'] + rest;
    assert(s.take(first_index(s, '\n')) == line);
    let returned = line.push('\r');
    assert(!returned.contains('\n')) by {
        if returned.contains('\n') {
            let i = choose|i: int| 0 <= i < returned.len() && returned[i] == '\n';
            assert(line.contains(line[i]));
        }
    }
    law_split_at_the_first(returned, '\n', rest);
    let t = returned + seq!['\n'] + rest;
    assert(t =~= line + seq!['\r', '\n'] + rest);
    assert(returned.drop_last() =~= line);
    law_split_at_the_first(line, '\n', rest);
    lemma_first_index(line, '\n');
    if first_index(line, '\n') < line.len() {
        assert(line.contains(line[first_index(line, '\n')]));
    }
}

/// The tokens of a text are its words: a word behind white space, or at the start, is one more
/// token, white space adds none, and the empty text has none.
pub proof fn law_tokens_are_the_words(s: Seq<char>, space: char, word: Seq<char>)
    requires
        is_white_space(space),
        word.len() > 0,
        forall|i: int| 0 <= i < word.len() ==> !is_white_space(#[trigger] word[i]),
    ensures
        tokens(Seq::empty()) == Seq::<Seq<char>>::empty(),
        tokens(s.push(space)) == tokens(s),
        tokens(s.push(space) + word) == tokens(s).push(word),
        tokens(word) == seq![word],
{
    lemma_tokens_before_space(s, space);
    lemma_tokens_of_word(s.push(space), word);
    lemma_tokens_of_word(Seq::empty(), word);
    assert(Seq::<char>::empty() + word =~= word);
    assert(Seq::<Seq<char>>::empty().push(word) =~= seq![word]);
}

/// The number of bytes that UTF-8 needs for a text.
pub open spec fn utf8_length(s: Seq<char>) -> nat
    decreases s.len(),
{
    if s.len() == 0 {
        0
    } else {
        utf8_width(s[0]) + utf8_length(s.skip(1))
    }
}

/// A character takes one byte in UTF-8 up to U+007F, two up to U+07FF, three up to U+FFFF, and four
/// beyond.
pub proof fn law_utf8_widths(c: char)
    ensures
        utf8_width(c) == 1 <==> c <= '\u{7f}',
        utf8_width(c) == 2 <==> '\u{80}' <= c && c <= '\u{7ff}',
        utf8_width(c) == 3 <==> '\u{800}' <= c && c <= '\u{ffff}',
        utf8_width(c) == 4 <==> '\u{10000}' <= c,
{
}

/// The first characters of a text, however many, are its prefix of as many bytes as they take; and
/// where no first characters take so many bytes, there is no such prefix.
pub proof fn law_byte_prefix_is_cut_between_characters(s: Seq<char>, k: int, n: nat)
    requires
        0 <= k <= s.len(),
    ensures
        byte_prefix(s, utf8_length(s.take(k))) == Some(s.take(k)),
        byte_prefix(s, n) matches Some(prefix) ==> utf8_length(prefix) == n && has_prefix(s, prefix),
    decreases s.len(),
{
    lemma_byte_prefix(s, n);
    let first = s.take(k);
    if s.len() > 0 {
        let rest = s.skip(1);
        if k > 0 {
            law_byte_prefix_is_cut_between_characters(rest, k - 1, 0);
            assert(first.skip(1) =~= rest.take(k - 1));
            assert(first[0] == s[0]);
            assert(seq![s[0]] + rest.take(k - 1) =~= first);
        } else {
            assert(first =~= Seq::empty());
        }
        if n > 0 && utf8_width(s[0]) <= n {
            let left = (n - utf8_width(s[0])) as nat;
            law_byte_prefix_is_cut_between_characters(rest, 0, left);
            if let Some(later) = byte_prefix(rest, left) {
                let prefix = seq![s[0]] + later;
                assert(prefix.skip(1) =~= later);
                assert(prefix[0] == s[0]);
            }
        }
    } else {
        assert(first =~= Seq::empty());
    }
}

} // verus!
