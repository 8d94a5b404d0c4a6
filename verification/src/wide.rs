//! UTF-16 text, as Windows hands it over.

use crate::text::chars_of;
use vstd::prelude::*;
use vstd::string::*;

verus! {

/// `char::from_u32`: the character with that scalar value, when the value is one.
pub assume_specification[ char::from_u32 ](i: u32) -> (r: Option<char>)
    ensures
        r == (if i <= 0xd7ff || 0xe000 <= i <= 0x10ffff {
            Some(i as char)
        } else {
            None
        }),
;

/// The UTF-16 code units of one character.
pub open spec fn units_of(c: char) -> Seq<u16> {
    let u = c as int;
    if u < 0x10000 {
        seq![u as u16]
    } else {
        seq![(0xd800 + (u - 0x10000) / 0x400) as u16, (0xdc00 + (u - 0x10000) % 0x400) as u16]
    }
}

/// The UTF-16 code units of a text.
pub open spec fn utf16(s: Seq<char>) -> Seq<u16>
    decreases s.len(),
{
    if s.len() == 0 {
        Seq::empty()
    } else {
        utf16(s.drop_last()) + units_of(s.last())
    }
}

/// Whether a code unit is the leading half of a surrogate pair.
pub open spec fn is_leading(u: u16) -> bool {
    0xd800 <= u <= 0xdbff
}

/// Whether a code unit is the trailing half of a surrogate pair.
pub open spec fn is_trailing(u: u16) -> bool {
    0xdc00 <= u <= 0xdfff
}

/// The text that UTF-16 code units spell, with the replacement character for every surrogate
/// that has no partner.
pub open spec fn utf16_lossy(w: Seq<u16>) -> Seq<char>
    decreases w.len(),
{
    if w.len() == 0 {
        Seq::empty()
    } else if !is_leading(w[0]) && !is_trailing(w[0]) {
        seq![w[0] as char] + utf16_lossy(w.skip(1))
    } else if is_leading(w[0]) && w.len() > 1 && is_trailing(w[1]) {
        seq![pair_value(w[0], w[1]) as char] + utf16_lossy(w.skip(2))
    } else {
        seq!['\u{fffd}'] + utf16_lossy(w.skip(1))
    }
}

/// The scalar value of a surrogate pair.
pub open spec fn pair_value(leading: u16, trailing: u16) -> int {
    0x10000 + (leading - 0xd800) * 0x400 + (trailing - 0xdc00)
}

/// A code-unit string up to its first zero unit, or all of it when there is none.
pub open spec fn before_nul(w: Seq<u16>) -> Seq<u16>
    decreases w.len(),
{
    if w.len() == 0 || w[0] == 0 {
        Seq::empty()
    } else {
        seq![w[0]] + before_nul(w.skip(1))
    }
}

/// Append the code units of one character.
fn push_units(out: &mut Vec<u16>, c: char)
    ensures
        final(out)@ == old(out)@ + units_of(c),
{
    let u: u32 = c as u32;
    if u < 0x10000 {
        out.push(u as u16);
    } else {
        out.push((0xd800 + (u - 0x10000) / 0x400) as u16);
        out.push((0xdc00 + (u - 0x10000) % 0x400) as u16);
    }
    assert(out@ =~= old(out)@ + units_of(c));
}

/// The character with a scalar value.
fn char_of(u: u32) -> (r: char)
    requires
        u <= 0xd7ff || 0xe000 <= u <= 0x10ffff,
    ensures
        r == u as char,
{
    match char::from_u32(u) {
        Some(c) => c,
        None => '\u{fffd}',
    }
}

/// Encode a text as UTF-16.
pub fn encode_utf16(s: &str) -> (r: Vec<u16>)
    ensures
        r@ == utf16(s@),
{
    let chars = chars_of(s);
    let mut out: Vec<u16> = Vec::new();
    let mut i: usize = 0;
    while i < chars.len()
        invariant
            i <= chars@.len(),
            chars@ == s@,
            out@ == utf16(chars@.take(i as int)),
        decreases chars@.len() - i,
    {
        assert(chars@.take(i + 1).drop_last() =~= chars@.take(i as int));
        push_units(&mut out, chars[i]);
        i = i + 1;
    }
    assert(chars@.take(i as int) =~= s@);
    out
}

/// Decode UTF-16, replacing every surrogate that has no partner.
pub fn decode_utf16_lossy(w: &[u16]) -> (r: String)
    ensures
        r@ == utf16_lossy(w@),
{
    let mut out = String::new();
    let mut i: usize = 0;
    assert(w@.skip(0) =~= w@);
    assert(out@ + utf16_lossy(w@) =~= utf16_lossy(w@));
    while i < w.len()
        invariant
            i <= w@.len(),
            out@ + utf16_lossy(w@.skip(i as int)) == utf16_lossy(w@),
        decreases w@.len() - i,
    {
        let ghost rest = w@.skip(i as int);
        let ghost before = out@;
        let u: u16 = w[i];
        let leading: bool = 0xd800 <= u && u <= 0xdbff;
        let trailing: bool = 0xdc00 <= u && u <= 0xdfff;
        if !leading && !trailing {
            out.push(char_of(u as u32));
            i = i + 1;
            assert(rest.skip(1) =~= w@.skip(i as int));
        } else if leading && i + 1 < w.len() && 0xdc00 <= w[i + 1] && w[i + 1] <= 0xdfff {
            let v: u32 = 0x10000 + (u as u32 - 0xd800) * 0x400 + (w[i + 1] as u32 - 0xdc00);
            out.push(char_of(v));
            i = i + 2;
            assert(rest.skip(2) =~= w@.skip(i as int));
        } else {
            out.push('\u{fffd}');
            i = i + 1;
            assert(rest.skip(1) =~= w@.skip(i as int));
        }
        assert(out@ + utf16_lossy(w@.skip(i as int)) =~= before + utf16_lossy(rest));
    }
    assert(w@.skip(i as int) =~= Seq::<u16>::empty());
    assert(out@ =~= utf16_lossy(w@));
    out
}

/// Number of code units before the terminating zero: zero for an absent string, the whole length
/// for a string that holds no zero.
pub fn wcslen(w: Option<&[u16]>) -> (r: usize)
    ensures
        match w {
            Some(units) => r == before_nul(units@).len() && units@.take(r as int) == before_nul(
                units@,
            ),
            None => r == 0,
        },
{
    match w {
        None => 0,
        Some(units) => {
            let mut len: usize = 0;
            assert(units@.skip(0) =~= units@);
            assert(units@.take(0) + before_nul(units@) =~= before_nul(units@));
            while len < units.len() && units[len] != 0
                invariant
                    len <= units@.len(),
                    units@.take(len as int) + before_nul(units@.skip(len as int)) == before_nul(
                        units@,
                    ),
                decreases units@.len() - len,
            {
                let ghost rest = units@.skip(len as int);
                assert(rest.skip(1) =~= units@.skip(len + 1));
                assert(units@.take(len + 1) + before_nul(rest.skip(1)) =~= units@.take(len as int)
                    + before_nul(rest));
                len = len + 1;
            }
            assert(before_nul(units@.skip(len as int)) =~= Seq::<u16>::empty());
            assert(units@.take(len as int) =~= before_nul(units@));
            len
        },
    }
}

/// Decoding text that begins with the units of one character yields that character, then the
/// rest decoded.
proof fn lemma_decode_units(c: char, w: Seq<u16>)
    ensures
        utf16_lossy(units_of(c) + w) == seq![c] + utf16_lossy(w),
{
    let u = c as int;
    let all = units_of(c) + w;
    if u < 0x10000 {
        assert(all[0] == u);
        assert(all.skip(1) =~= w);
    } else {
        assert(all[0] == 0xd800 + (u - 0x10000) / 0x400);
        assert(all[1] == 0xdc00 + (u - 0x10000) % 0x400);
        assert(all.skip(2) =~= w);
        assert(pair_value(all[0], all[1]) == u);
    }
}

/// Decoding the concatenation of encoded text and further units.
proof fn lemma_decode_encoded(s: Seq<char>, w: Seq<u16>)
    ensures
        utf16_lossy(utf16(s) + w) == s + utf16_lossy(w),
    decreases s.len(),
{
    if s.len() == 0 {
        assert(utf16(s) + w =~= w);
        assert(s + utf16_lossy(w) =~= utf16_lossy(w));
    } else {
        let last = units_of(s.last());
        assert(utf16(s) + w =~= utf16(s.drop_last()) + (last + w));
        lemma_decode_encoded(s.drop_last(), last + w);
        lemma_decode_units(s.last(), w);
        assert(s.drop_last() + (seq![s.last()] + utf16_lossy(w)) =~= s + utf16_lossy(w));
    }
}

/// Every text survives being encoded as UTF-16 and decoded again.
pub proof fn law_utf16_round_trip(s: Seq<char>)
    ensures
        utf16_lossy(utf16(s)) == s,
{
    lemma_decode_encoded(s, Seq::empty());
    assert(utf16(s) + Seq::<u16>::empty() =~= utf16(s));
    assert(s + utf16_lossy(Seq::<u16>::empty()) =~= s);
}

/// A character of the basic plane is one unit, its own scalar value; any other is a leading and a
/// trailing surrogate that split what is left of its value beyond the basic plane.
pub proof fn law_characters_are_one_or_two_units(c: char)
    ensures
        c <= '\u{ffff}' ==> utf16(seq![c]) == seq![c as u16],
        c > '\u{ffff}' ==> {
            let units = utf16(seq![c]);
            &&& units.len() == 2
            &&& 0xd800 <= units[0] <= 0xdbff && 0xdc00 <= units[1] <= 0xdfff
            &&& (units[0] - 0xd800) * 0x400 + (units[1] - 0xdc00) + 0x10000 == c as int
        },
{
    assert(seq![c].drop_last() =~= Seq::empty());
    reveal_with_fuel(utf16, 2);
    assert(utf16(seq![c]) =~= units_of(c));
}

/// The units of two texts, one behind the other, are those of the first and then those of the
/// second.
pub proof fn law_units_follow_the_text(a: Seq<char>, b: Seq<char>)
    ensures
        utf16(a + b) == utf16(a) + utf16(b),
    decreases b.len(),
{
    if b.len() == 0 {
        assert(a + b =~= a);
        assert(utf16(a) + utf16(b) =~= utf16(a));
    } else {
        assert((a + b).drop_last() =~= a + b.drop_last());
        law_units_follow_the_text(a, b.drop_last());
        assert(utf16(a) + utf16(b.drop_last()) + units_of(b.last()) =~= utf16(a) + utf16(b));
    }
}

/// A surrogate without its partner is read as the replacement character, and what follows is read as
/// if it stood alone.
pub proof fn law_lone_surrogates_are_replaced(unit: u16, rest: Seq<u16>)
    requires
        0xd800 <= unit <= 0xdfff,
        unit <= 0xdbff ==> rest.len() == 0 || !(0xdc00 <= rest[0] <= 0xdfff),
    ensures
        utf16_lossy(seq![unit] + rest) == seq!['\u{fffd}'] + utf16_lossy(rest),
{
    let all = seq![unit] + rest;
    assert(all.skip(1) =~= rest);
    if rest.len() > 0 {
        assert(all[1] == rest[0]);
    }
}

/// What stands before the terminating zero is read up to it and no further; a string without a zero
/// is read whole.
pub proof fn law_strings_end_at_their_zero(units: Seq<u16>, rest: Seq<u16>)
    requires
        forall|i: int| 0 <= i < units.len() ==> #[trigger] units[i] != 0,
    ensures
        before_nul(units + seq![0u16] + rest) == units,
        before_nul(units) == units,
    decreases units.len(),
{
    let all = units + seq![0u16] + rest;
    if units.len() > 0 {
        let later = units.skip(1);
        assert forall|i: int| 0 <= i < later.len() implies #[trigger] later[i] != 0 by {
            assert(units[i + 1] != 0);
        }
        assert(units[0] != 0);
        law_strings_end_at_their_zero(later, rest);
        assert(all.skip(1) =~= later + seq![0u16] + rest);
        assert(seq![units[0]] + later =~= units);
        assert(all[0] == units[0]);
    } else {
        assert(all[0] == 0);
        assert(units =~= Seq::empty());
    }
}

} // verus!
