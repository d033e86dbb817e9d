//! What splitting, trimming, joining, and reading and writing numbers come to, on every text.
use vstd::prelude::*;

use crate::text::{
    after_last, ascii_lowercase, decimal, is_digit, is_space, joined, lemma_decimal, lemma_one_word,
    lemma_pieces_apart, lemma_pieces_one, lemma_words_apart, number, pieces, trim_end, trim_start,
    trimmed, two_digits, unsigned_part, value, words,
};

verus! {

/// Whether a text is white space alone.
pub open spec fn is_blank(s: Seq<char>) -> bool {
    forall|i: int| 0 <= i < s.len() ==> is_space(#[trigger] s[i])
}

/// Whether a text neither begins nor ends with white space.
pub open spec fn is_tight(s: Seq<char>) -> bool {
    s.len() > 0 ==> !is_space(s[0]) && !is_space(s[s.len() - 1])
}

// ---------------------------------------------------------------------------
// Trimming
// ---------------------------------------------------------------------------

proof fn lemma_trim_start(a: Seq<char>, t: Seq<char>)
    requires
        is_blank(a),
        t.len() > 0 ==> !is_space(t[0]),
    ensures
        trim_start(a + t) == t,
    decreases a.len(),
{
    if a.len() == 0 {
        assert(a + t == t);
    } else {
        let s = a + t;
        assert(s[0] == a[0]);
        assert(is_space(a[0]));
        assert(s.drop_first() == a.drop_first() + t);
        assert forall|i: int| 0 <= i < a.len() - 1 implies is_space(#[trigger] a.drop_first()[i]) by {
            assert(a.drop_first()[i] == a[i + 1]);
        }
        lemma_trim_start(a.drop_first(), t);
    }
}

proof fn lemma_trim_end(t: Seq<char>, b: Seq<char>)
    requires
        is_blank(b),
        t.len() > 0 ==> !is_space(t[t.len() - 1]),
    ensures
        trim_end(t + b) == t,
    decreases b.len(),
{
    if b.len() == 0 {
        assert(t + b == t);
    } else {
        let s = t + b;
        assert(s.last() == b[b.len() - 1]);
        assert(is_space(b[b.len() - 1]));
        assert(s.drop_last() == t + b.drop_last());
        assert forall|i: int| 0 <= i < b.len() - 1 implies is_space(#[trigger] b.drop_last()[i]) by {
            assert(b.drop_last()[i] == b[i]);
        }
        lemma_trim_end(t, b.drop_last());
    }
}

/// Trimming takes white space off both ends of a text and nothing else: whatever stands between
/// stays whole, the white space in it too.
pub proof fn trimming_takes_the_ends_alone(a: Seq<char>, t: Seq<char>, b: Seq<char>)
    requires
        is_blank(a),
        is_tight(t),
        is_blank(b),
    ensures
        trimmed(a + t + b) == t,
{
    if t.len() > 0 {
        assert((t + b)[0] == t[0]);
        lemma_trim_start(a, t + b);
        assert(a + t + b == a + (t + b));
        lemma_trim_end(t, b);
    } else {
        let s = a + t + b;
        assert forall|i: int| 0 <= i < s.len() implies is_space(#[trigger] s[i]) by {
            if i < a.len() {
                assert(s[i] == a[i]);
            } else {
                assert(s[i] == b[i - a.len()]);
            }
        }
        lemma_trim_start(s, Seq::empty());
        assert(s + Seq::<char>::empty() == s);
        assert(t == Seq::<char>::empty());
    }
}

// ---------------------------------------------------------------------------
// Words
// ---------------------------------------------------------------------------

/// White space between two texts keeps their words apart, and loses none.
pub proof fn words_of_two_texts(a: Seq<char>, c: char, b: Seq<char>)
    requires
        is_space(c),
    ensures
        words(a + seq![c] + b) == words(a) + words(b),
{
    lemma_words_apart(a, c, b);
}

/// A text without white space is one word, whatever its length, and nothing is none.
pub proof fn words_of_one_word(w: Seq<char>)
    requires
        forall|i: int| 0 <= i < w.len() ==> !is_space(#[trigger] w[i]),
    ensures
        words(w) == (if w.len() > 0 {
            seq![w]
        } else {
            Seq::<Seq<char>>::empty()
        }),
{
    if w.len() > 0 {
        lemma_one_word(w);
    }
}

// ---------------------------------------------------------------------------
// Pieces
// ---------------------------------------------------------------------------

/// A text without `c` is one piece, and each `c` parts one more piece off, empty ones too.
pub proof fn pieces_are_parted_by_each(a: Seq<char>, c: char, b: Seq<char>)
    requires
        !a.contains(c),
    ensures
        pieces(a, c) == seq![a],
        pieces(a + seq![c] + b, c) == seq![a] + pieces(b, c),
{
    lemma_pieces_one(a, c);
    lemma_pieces_apart(a, c, b);
}

/// What stands behind the last `c` is what no `c` follows, and all of a text without one.
pub proof fn last_part_is_behind_the_last(a: Seq<char>, c: char, b: Seq<char>)
    requires
        !b.contains(c),
    ensures
        after_last(a + seq![c] + b, c) == b,
        after_last(b, c) == b,
    decreases b.len(),
{
    crate::text::lemma_after_last(a, c, b);
    if b.len() > 0 {
        assert(b.contains(b[b.len() - 1]));
        assert(!b.drop_last().contains(c)) by {
            if b.drop_last().contains(c) {
                let i = choose|i: int| 0 <= i < b.len() - 1 && b.drop_last()[i] == c;
                assert(b[i] == c);
            }
        }
        last_part_is_behind_the_last(a, c, b.drop_last());
        assert(b.drop_last().push(b.last()) == b);
    }
}

// ---------------------------------------------------------------------------
// Joining
// ---------------------------------------------------------------------------

/// Joining two lists one after the other puts the separator once between them, whatever their
/// lengths; a list of one text is that text, and an empty list is nothing.
pub proof fn joining_puts_the_separator_between(
    a: Seq<Seq<char>>,
    b: Seq<Seq<char>>,
    t: Seq<char>,
    sep: Seq<char>,
)
    ensures
        joined(Seq::empty(), sep) == Seq::<char>::empty(),
        joined(seq![t], sep) == t,
        a.len() > 0 && b.len() > 0 ==> joined(a + b, sep) == joined(a, sep) + sep + joined(b, sep),
    decreases b.len(),
{
    if a.len() > 0 && b.len() > 0 {
        let all = a + b;
        assert(all.drop_last() == a + b.drop_last());
        assert(all.last() == b.last());
        if b.len() == 1 {
            assert(a + b.drop_last() == a);
        } else {
            joining_puts_the_separator_between(a, b.drop_last(), t, sep);
            assert(joined(a, sep) + sep + joined(b.drop_last(), sep) + sep + b.last() == joined(a, sep)
                + sep + (joined(b.drop_last(), sep) + sep + b.last()));
        }
    }
}

// ---------------------------------------------------------------------------
// Numbers
// ---------------------------------------------------------------------------

/// A text of zeros.
pub open spec fn zeros(k: nat) -> Seq<char> {
    Seq::new(k, |i: int| '0')
}

/// A number in decimal is written digit by digit: a number below ten is one digit, and ten times a
/// number with a digit more is that number with the digit behind it.
pub proof fn decimal_grows_by_digits(n: nat, d: nat)
    requires
        d < 10,
    ensures
        decimal(d) == seq![('0' as nat + d) as char],
        n > 0 ==> decimal(n * 10 + d) == decimal(n).push(('0' as nat + d) as char),
        decimal(n)[0] == '0' ==> n == 0,
    decreases n,
{
    if n > 0 {
        assert((n * 10 + d) / 10 == n);
        assert((n * 10 + d) % 10 == d);
        assert(n * 10 + d >= 10);
    }
    if n >= 10 {
        decimal_grows_by_digits(n / 10, 0);
        lemma_decimal(n / 10);
        assert(decimal(n)[0] == decimal(n / 10)[0]);
    }
}

/// A number with at least two digits has a zero before a single one, and else is as written.
pub proof fn two_digits_are_padded(n: nat)
    ensures
        two_digits(n) == (if n < 10 {
            seq!['0', ('0' as nat + n) as char]
        } else {
            decimal(n)
        }),
        two_digits(n).len() >= 2,
{
    if n < 10 {
        assert(two_digits(n) =~= seq!['0', ('0' as nat + n) as char]);
    } else {
        lemma_decimal(n / 10);
    }
}

proof fn lemma_value_of_zeros(k: nat, digits: Seq<char>)
    ensures
        value(zeros(k) + digits) == value(digits),
    decreases k + digits.len(),
{
    let s = zeros(k) + digits;
    if digits.len() > 0 {
        assert(s.drop_last() == zeros(k) + digits.drop_last());
        assert(s.last() == digits.last());
        lemma_value_of_zeros(k, digits.drop_last());
    } else if k > 0 {
        assert(s.drop_last() == zeros((k - 1) as nat) + digits);
        assert(s.last() == '0');
        lemma_value_of_zeros((k - 1) as nat, digits);
    } else {
        assert(s == digits);
    }
}

/// Every number not above the most is read from its digits, whatever zeros stand before them, with
/// or without one plus sign; a greater one is not.
pub proof fn written_number_is_read(n: nat, max: nat, k: nat)
    ensures
        number(zeros(k) + decimal(n), max) == (if n <= max {
            Some(n)
        } else {
            None::<nat>
        }),
        number(seq!['+'] + (zeros(k) + decimal(n)), max) == number(zeros(k) + decimal(n), max),
{
    let s = zeros(k) + decimal(n);
    lemma_decimal(n);
    lemma_value_of_zeros(k, decimal(n));
    assert forall|i: int| 0 <= i < s.len() implies is_digit(#[trigger] s[i]) by {
        if i >= k {
            assert(s[i] == decimal(n)[i - k]);
            assert(is_digit(decimal(n)[i - k]));
        }
    }
    assert(is_digit(s[0]));
    assert(unsigned_part(s) == s);
    assert((seq!['+'] + s).drop_first() == s);
    assert(unsigned_part(seq!['+'] + s) == s);
}

/// The number of a run of digits, written again behind zeros, is that run.
proof fn lemma_written_again(digits: Seq<char>) -> (k: nat)
    requires
        digits.len() > 0,
        forall|i: int| 0 <= i < digits.len() ==> is_digit(#[trigger] digits[i]),
    ensures
        digits == zeros(k) + decimal(value(digits)),
    decreases digits.len(),
{
    let d = (digits.last() as nat - '0' as nat) as nat;
    assert(is_digit(digits[digits.len() - 1]));
    assert(('0' as nat + d) as char == digits.last());
    if digits.len() == 1 {
        assert(digits.drop_last().len() == 0);
        assert(value(digits.drop_last()) == 0);
        decimal_grows_by_digits(0, d);
        assert(digits =~= zeros(0) + decimal(value(digits)));
        0
    } else {
        let front = digits.drop_last();
        assert forall|i: int| 0 <= i < front.len() implies is_digit(#[trigger] front[i]) by {
            assert(front[i] == digits[i]);
        }
        let k = lemma_written_again(front);
        let n = value(front);
        decimal_grows_by_digits(n, d);
        if n > 0 {
            assert(digits =~= front.push(digits.last()));
            assert(digits =~= zeros(k) + decimal(n).push(digits.last()));
            k
        } else {
            assert(decimal(0).len() == 1 && decimal(0)[0] == '0') by {
                decimal_grows_by_digits(0, 0);
            }
            assert(decimal(d).len() == 1);
            assert(decimal(0) =~= seq!['0']);
            assert(front =~= zeros((k + 1) as nat));
            assert(digits =~= front.push(digits.last()));
            assert(digits =~= zeros((k + 1) as nat) + decimal(d));
            k + 1
        }
    }
}

/// Nothing else is read for a number: a text that is one spells a number not above the most, behind
/// zeros and at most one plus sign.
pub proof fn read_number_was_written(s: Seq<char>, max: nat)
    ensures
        number(s, max) matches Some(n) ==> n <= max && exists|k: nat|
            s == #[trigger] zeros(k) + decimal(n) || s == seq!['+'] + (zeros(k) + decimal(n)),
{
    if number(s, max) is Some {
        let digits = unsigned_part(s);
        let k = lemma_written_again(digits);
        if digits != s {
            assert(s =~= seq!['+'] + digits);
        }
        assert(s == zeros(k) + decimal(value(digits)) || s == seq!['+'] + (zeros(k) + decimal(
            value(digits),
        )));
    }
}

/// The letters from `A` to `Z` become those from `a` to `z` one by one, and every other character
/// stays.
pub proof fn ascii_letters_become_small(s: Seq<char>, i: int)
    requires
        0 <= i < s.len(),
    ensures
        ascii_lowercase(s).len() == s.len(),
        'A' <= s[i] <= 'Z' ==> ascii_lowercase(s)[i] as nat == s[i] as nat + 32,
        s[i] < 'A' || 'Z' < s[i] ==> ascii_lowercase(s)[i] == s[i],
{
}

} // verus!
