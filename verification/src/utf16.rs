//! Text in UTF-16, as the system's own calls take and give it.
use vstd::prelude::*;

use crate::text::chars_of;

verus! {

/// The code units of a character.
pub open spec fn char_units(c: char) -> Seq<u16> {
    let n = c as int;
    if n < 0x10000 {
        seq![n as u16]
    } else {
        let m = n - 0x10000;
        seq![(0xd800 + m / 0x400) as u16, (0xdc00 + m % 0x400) as u16]
    }
}

/// The code units of a text.
pub open spec fn units(s: Seq<char>) -> Seq<u16>
    decreases s.len(),
{
    if s.len() == 0 {
        Seq::empty()
    } else {
        units(s.drop_last()) + char_units(s.last())
    }
}

/// Puts the code units of a character behind others.
fn push_char(r: &mut Vec<u16>, c: char)
    ensures
        final(r)@ == old(r)@ + char_units(c),
{
    let n: u32 = c as u32;
    if n < 0x10000 {
        r.push(n as u16);
    } else {
        let m: u32 = n - 0x10000;
        r.push((0xd800 + m / 0x400) as u16);
        r.push((0xdc00 + m % 0x400) as u16);
    }
}

/// The code units of a text.
pub fn encode(s: &str) -> (r: Vec<u16>)
    ensures
        r@ == units(s@),
{
    let cs: Vec<char> = chars_of(s);
    let mut r: Vec<u16> = Vec::new();
    let mut i: usize = 0;
    while i < cs.len()
        invariant
            i <= cs@.len(),
            cs@ == s@,
            r@ == units(s@.take(i as int)),
        decreases cs@.len() - i,
    {
        assert(s@.take(i + 1).drop_last() == s@.take(i as int));
        assert(s@.take(i + 1).last() == cs@[i as int]);
        push_char(&mut r, cs[i]);
        i = i + 1;
    }
    assert(s@.take(cs@.len() as int) == s@);
    r
}

/// A text as the system's calls take it: its code units, and a zero behind them.
pub fn wide(s: &str) -> (r: Vec<u16>)
    ensures
        r@ == units(s@).push(0),
{
    let mut r: Vec<u16> = encode(s);
    r.push(0);
    r
}

/// A unit that begins a pair.
pub open spec fn is_high(u: u16) -> bool {
    0xd800 <= u <= 0xdbff
}

/// A unit that ends a pair.
pub open spec fn is_low(u: u16) -> bool {
    0xdc00 <= u <= 0xdfff
}

/// The text of code units, with a replacement character for every unit that should be one of a
/// pair and is not.
pub open spec fn utf16_lossy(us: Seq<u16>) -> Seq<char>
    decreases us.len(),
{
    if us.len() == 0 {
        Seq::empty()
    } else if !is_high(us[0]) && !is_low(us[0]) {
        seq![us[0] as char] + utf16_lossy(us.skip(1))
    } else if is_high(us[0]) && us.len() > 1 && is_low(us[1]) {
        let n = 0x10000 + (us[0] - 0xd800) * 0x400 + (us[1] - 0xdc00);
        seq![n as char] + utf16_lossy(us.skip(2))
    } else {
        seq!['\u{fffd}'] + utf16_lossy(us.skip(1))
    }
}

/// `String::from_utf16_lossy`: the text of code units, where every unpaired one of a pair's units
/// becomes the replacement character.
#[verifier::external_body]
pub(crate) fn from_utf16_lossy(us: &[u16]) -> (r: String)
    ensures
        r@ == utf16_lossy(us@),
{
    String::from_utf16_lossy(us)
}

/// The units before the first zero.
pub open spec fn until_zero(us: Seq<u16>) -> Seq<u16>
    decreases us.len(),
{
    if us.len() == 0 || us[0] == 0 {
        Seq::empty()
    } else {
        seq![us[0]] + until_zero(us.skip(1))
    }
}

/// The text in a buffer of code units, which ends at the first zero or at the buffer's end.
pub fn buffer_text(us: &Vec<u16>) -> (r: String)
    ensures
        r@ == utf16_lossy(until_zero(us@)),
{
    let mut name: Vec<u16> = Vec::new();
    let mut i: usize = 0;
    assert(us@.skip(0) == us@);
    while i < us.len() && us[i] != 0
        invariant
            i <= us@.len(),
            name@ + until_zero(us@.skip(i as int)) == until_zero(us@),
        decreases us@.len() - i,
    {
        proof {
            let rest = us@.skip(i as int);
            assert(rest[0] == us@[i as int]);
            assert(rest.skip(1) == us@.skip(i + 1));
            assert(name@.push(us@[i as int]) + until_zero(us@.skip(i + 1)) == name@ + until_zero(
                rest,
            ));
        }
        name.push(us[i]);
        i = i + 1;
    }
    assert(until_zero(us@.skip(i as int)) == Seq::<u16>::empty());
    assert(name@ == until_zero(us@));
    from_utf16_lossy(name.as_slice())
}

proof fn lemma_lossy_char(c: char, rest: Seq<u16>)
    ensures
        utf16_lossy(char_units(c) + rest) == seq![c] + utf16_lossy(rest),
{
    let n = c as int;
    let us = char_units(c) + rest;
    if n < 0x10000 {
        assert(us.skip(1) == rest);
    } else {
        assert(us.skip(2) == rest);
    }
}

proof fn lemma_lossy_units(s: Seq<char>, rest: Seq<u16>)
    ensures
        utf16_lossy(units(s) + rest) == s + utf16_lossy(rest),
    decreases s.len(),
{
    if s.len() == 0 {
        assert(units(s) + rest == rest);
        assert(s + utf16_lossy(rest) == utf16_lossy(rest));
    } else {
        let front = s.drop_last();
        let tail = char_units(s.last()) + rest;
        assert(units(s) + rest == units(front) + tail);
        lemma_lossy_units(front, tail);
        lemma_lossy_char(s.last(), rest);
        assert(front + (seq![s.last()] + utf16_lossy(rest)) == s + utf16_lossy(rest));
    }
}

/// Decoding gives back every text that was encoded.
pub proof fn decoding_undoes_encoding(s: Seq<char>)
    ensures
        utf16_lossy(units(s)) == s,
{
    lemma_lossy_units(s, Seq::empty());
    assert(units(s) + Seq::<u16>::empty() == units(s));
    assert(s + utf16_lossy(Seq::<u16>::empty()) == s);
}

proof fn lemma_until_zero(us: Seq<u16>)
    requires
        forall|i: int| 0 <= i < us.len() ==> us[i] != 0,
    ensures
        until_zero(us.push(0)) == us,
    decreases us.len(),
{
    if us.len() > 0 {
        assert(us.push(0).skip(1) == us.skip(1).push(0));
        lemma_until_zero(us.skip(1));
        assert(seq![us[0]] + us.skip(1) == us);
    }
}

proof fn lemma_char_nonzero(c: char)
    requires
        c != '\0',
    ensures
        forall|i: int| 0 <= i < char_units(c).len() ==> char_units(c)[i] != 0,
{
}

proof fn lemma_units_nonzero(s: Seq<char>)
    requires
        !s.contains('\0'),
    ensures
        forall|i: int| 0 <= i < units(s).len() ==> units(s)[i] != 0,
    decreases s.len(),
{
    if s.len() > 0 {
        assert(s.last() != '\0') by {
            assert(s[s.len() - 1] == s.last());
        }
        assert(!s.drop_last().contains('\0')) by {
            if s.drop_last().contains('\0') {
                let i = choose|i: int| 0 <= i < s.len() - 1 && s.drop_last()[i] == '\0';
                assert(s[i] == '\0');
            }
        }
        lemma_units_nonzero(s.drop_last());
        lemma_char_nonzero(s.last());
        let front = units(s.drop_last());
        assert forall|i: int| 0 <= i < units(s).len() implies units(s)[i] != 0 by {
            if i < front.len() {
                assert(units(s)[i] == front[i]);
            } else {
                assert(units(s)[i] == char_units(s.last())[i - front.len()]);
            }
        }
    }
}

/// A text without zero characters comes back whole out of the buffer that it was handed over in.
pub proof fn wide_text_comes_back(s: Seq<char>)
    requires
        !s.contains('\0'),
    ensures
        utf16_lossy(until_zero(units(s).push(0))) == s,
{
    lemma_units_nonzero(s);
    lemma_until_zero(units(s));
    decoding_undoes_encoding(s);
}

proof fn lemma_until_first_zero(us: Seq<u16>, rest: Seq<u16>)
    requires
        forall|i: int| 0 <= i < us.len() ==> us[i] != 0,
    ensures
        until_zero(us + seq![0u16] + rest) == us,
    decreases us.len(),
{
    let all = us + seq![0u16] + rest;
    if us.len() > 0 {
        assert(all[0] == us[0]);
        assert(all.skip(1) == us.skip(1) + seq![0u16] + rest);
        lemma_until_first_zero(us.skip(1), rest);
        assert(seq![us[0]] + us.skip(1) == us);
    } else {
        assert(all[0] == 0);
        assert(us == Seq::<u16>::empty());
    }
}

/// A text without zero characters is read whole out of a buffer that holds it before a zero, whatever
/// its length and whatever stands behind the zero.
pub proof fn text_before_the_zero_is_read(s: Seq<char>, rest: Seq<u16>)
    requires
        !s.contains('\0'),
    ensures
        utf16_lossy(until_zero(units(s) + seq![0u16] + rest)) == s,
{
    lemma_units_nonzero(s);
    lemma_until_first_zero(units(s), rest);
    decoding_undoes_encoding(s);
}

/// Text is encoded character by character: a character of the first plane is one unit, its own
/// number, and any other is a pair.
pub proof fn text_is_encoded_by_characters(a: Seq<char>, c: char, b: Seq<char>)
    ensures
        units(a + b) == units(a) + units(b),
        (c as int) < 0x10000 ==> units(seq![c]) == seq![c as u16],
        (c as int) >= 0x10000 ==> units(seq![c]).len() == 2 && is_high(units(seq![c])[0]) && is_low(
            units(seq![c])[1],
        ),
    decreases b.len(),
{
    assert(seq![c].drop_last() == Seq::<char>::empty());
    assert(units(Seq::<char>::empty()) == Seq::<u16>::empty());
    assert(seq![c].last() == c);
    assert(units(seq![c]) =~= char_units(c));
    if b.len() == 0 {
        assert(a + b == a);
        assert(units(a) + units(b) == units(a));
    } else {
        assert((a + b).drop_last() == a + b.drop_last());
        text_is_encoded_by_characters(a, c, b.drop_last());
        assert(units(a + b) =~= units(a) + units(b));
    }
}

/// A buffer without a zero is read to its end.
pub proof fn buffer_without_zero_is_read_whole(us: Seq<u16>)
    requires
        forall|i: int| 0 <= i < us.len() ==> us[i] != 0,
    ensures
        until_zero(us) == us,
    decreases us.len(),
{
    if us.len() > 0 {
        buffer_without_zero_is_read_whole(us.skip(1));
        assert(seq![us[0]] + us.skip(1) == us);
    }
}

} // verus!
