//! Plain text: splitting, trimming, joining, and decimal numbers.
//!
//! A string is modelled by the sequence of its characters.
use vstd::prelude::*;

verus! {

/// The contents of a list of strings.
pub open spec fn texts(v: Seq<String>) -> Seq<Seq<char>> {
    v.map_values(|s: String| s@)
}

/// The content of an optional string.
pub open spec fn opt_text(s: Option<String>) -> Option<Seq<char>> {
    match s {
        Some(t) => Some(t@),
        None => None,
    }
}

/// Whether two strings hold the same characters.
pub fn same(a: &str, b: &str) -> (r: bool)
    ensures
        r == (a@ == b@),
{
    a.to_owned() == b.to_owned()
}

/// Two pieces of text, one after the other.
pub fn cat2(a: &str, b: &str) -> (r: String)
    ensures
        r@ == a@ + b@,
{
    let mut r: String = a.to_owned();
    r.append(b);
    r
}

/// Three pieces of text, one after the other.
pub fn cat3(a: &str, b: &str, c: &str) -> (r: String)
    ensures
        r@ == a@ + b@ + c@,
{
    let mut r: String = a.to_owned();
    r.append(b);
    r.append(c);
    r
}

/// A copy of a list of strings.
pub fn copy_texts(v: &Vec<String>) -> (r: Vec<String>)
    ensures
        r@ == v@,
{
    let mut r: Vec<String> = Vec::new();
    let mut i: usize = 0;
    while i < v.len()
        invariant
            i <= v@.len(),
            r@ == v@.take(i as int),
        decreases v@.len() - i,
    {
        r.push(v[i].clone());
        i = i + 1;
    }
    r
}

/// Whether a list of strings holds a given one.
pub fn has_text(v: &Vec<String>, t: &str) -> (r: bool)
    ensures
        r == texts(v@).contains(t@),
{
    let mut i: usize = 0;
    while i < v.len()
        invariant
            i <= v@.len(),
            forall|j: int| 0 <= j < i ==> texts(v@)[j] != t@,
        decreases v@.len() - i,
    {
        if same(v[i].as_str(), t) {
            assert(texts(v@)[i as int] == t@);
            return true;
        }
        i = i + 1;
    }
    false
}

/// The characters of a string, one by one.
pub fn chars_of(s: &str) -> (r: Vec<char>)
    ensures
        r@ == s@,
{
    let mut r: Vec<char> = Vec::new();
    for c in it: s.chars()
        invariant
            it.seq() == s@,
            r@ == s@.take(it.index() as int),
    {
        r.push(c);
    }
    r
}

// ---------------------------------------------------------------------------
// White space
// ---------------------------------------------------------------------------

/// The characters with Unicode's `White_Space` property.
pub open spec fn is_space(c: char) -> bool {
    let n = c as int;
    ||| 0x09 <= n <= 0x0d
    ||| n == 0x20
    ||| n == 0x85
    ||| n == 0xa0
    ||| n == 0x1680
    ||| 0x2000 <= n <= 0x200a
    ||| n == 0x2028
    ||| n == 0x2029
    ||| n == 0x202f
    ||| n == 0x205f
    ||| n == 0x3000
}

/// Whether a character is white space.
pub fn space(c: char) -> (r: bool)
    ensures
        r == is_space(c),
{
    let n: u32 = c as u32;
    (0x09 <= n && n <= 0x0d) || n == 0x20 || n == 0x85 || n == 0xa0 || n == 0x1680 || (0x2000 <= n
        && n <= 0x200a) || n == 0x2028 || n == 0x2029 || n == 0x202f || n == 0x205f || n == 0x3000
}

/// How many characters stand before the first white space.
pub open spec fn ink_len(s: Seq<char>) -> nat
    decreases s.len(),
{
    if s.len() == 0 || is_space(s[0]) {
        0
    } else {
        1 + ink_len(s.drop_first())
    }
}

/// The words of a text: its longest runs without white space, in order.
pub open spec fn words(s: Seq<char>) -> Seq<Seq<char>>
    decreases s.len(),
{
    if s.len() == 0 {
        Seq::empty()
    } else if is_space(s[0]) {
        words(s.drop_first())
    } else {
        proof {
            lemma_ink_len(s);
        }
        seq![s.take(ink_len(s) as int)] + words(s.skip(ink_len(s) as int))
    }
}

/// What `ink_len` counts: no white space before that place, and white space at it.
pub proof fn lemma_ink_len(s: Seq<char>)
    ensures
        ink_len(s) <= s.len(),
        forall|i: int| 0 <= i < ink_len(s) ==> !is_space(#[trigger] s[i]),
        ink_len(s) < s.len() ==> is_space(s[ink_len(s) as int]),
    decreases s.len(),
{
    if s.len() > 0 && !is_space(s[0]) {
        let t = s.drop_first();
        lemma_ink_len(t);
        assert forall|i: int| 0 <= i < ink_len(s) implies !is_space(#[trigger] s[i]) by {
            if i > 0 {
                assert(s[i] == t[i - 1]);
            }
        }
    }
}

/// A run without white space that ends at white space or at the end has just that length.
proof fn lemma_ink_len_is(s: Seq<char>, n: nat)
    requires
        n <= s.len(),
        forall|i: int| 0 <= i < n ==> !is_space(#[trigger] s[i]),
        n < s.len() ==> is_space(s[n as int]),
    ensures
        ink_len(s) == n,
{
    lemma_ink_len(s);
    if ink_len(s) < n {
        assert(!is_space(s[ink_len(s) as int]));
    }
}

/// The words of a text.
pub fn split_whitespace(s: &str) -> (r: Vec<String>)
    ensures
        texts(r@) == words(s@),
{
    let cs: Vec<char> = chars_of(s);
    let n: usize = cs.len();
    let mut r: Vec<String> = Vec::new();
    let mut i: usize = 0;
    assert(s@.skip(0) == s@);
    while i < n
        invariant
            i <= n,
            n == cs@.len(),
            cs@ == s@,
            texts(r@) + words(s@.skip(i as int)) == words(s@),
        decreases n - i,
    {
        let ghost rest = s@.skip(i as int);
        if space(cs[i]) {
            assert(rest.drop_first() == s@.skip(i + 1));
            i = i + 1;
        } else {
            let start: usize = i;
            while i < n && !space(cs[i])
                invariant
                    start <= i <= n,
                    n == cs@.len(),
                    cs@ == s@,
                    forall|j: int| start <= j < i ==> !is_space(#[trigger] s@[j]),
                decreases n - i,
            {
                i = i + 1;
            }
            let w: String = s.substring_char(start, i).to_owned();
            proof {
                let k = (i - start) as nat;
                assert forall|j: int| 0 <= j < k implies !is_space(#[trigger] rest[j]) by {
                    assert(rest[j] == s@[start + j]);
                }
                if k < rest.len() {
                    assert(rest[k as int] == s@[i as int]);
                }
                lemma_ink_len_is(rest, k);
                assert(rest.take(k as int) == w@);
                assert(rest.skip(k as int) == s@.skip(i as int));
                assert(texts(r@.push(w)) == texts(r@).push(w@));
                assert(texts(r@).push(w@) + words(s@.skip(i as int)) == texts(r@) + words(rest));
            }
            r.push(w);
        }
    }
    assert(s@.skip(n as int).len() == 0);
    assert(texts(r@) + words(s@.skip(n as int)) == texts(r@));
    r
}

/// A text without its leading white space.
pub open spec fn trim_start(s: Seq<char>) -> Seq<char>
    decreases s.len(),
{
    if s.len() > 0 && is_space(s[0]) {
        trim_start(s.drop_first())
    } else {
        s
    }
}

/// A text without its trailing white space.
pub open spec fn trim_end(s: Seq<char>) -> Seq<char>
    decreases s.len(),
{
    if s.len() > 0 && is_space(s.last()) {
        trim_end(s.drop_last())
    } else {
        s
    }
}

/// A text without the white space at both ends.
pub open spec fn trimmed(s: Seq<char>) -> Seq<char> {
    trim_end(trim_start(s))
}

/// A text without the white space at both ends.
pub fn trim(s: &str) -> (r: String)
    ensures
        r@ == trimmed(s@),
{
    let cs: Vec<char> = chars_of(s);
    let n: usize = cs.len();
    let mut from: usize = 0;
    assert(s@.skip(0) == s@);
    while from < n && space(cs[from])
        invariant
            from <= n,
            n == cs@.len(),
            cs@ == s@,
            trim_start(s@.skip(from as int)) == trim_start(s@),
        decreases n - from,
    {
        assert(s@.skip(from as int).drop_first() == s@.skip(from + 1));
        from = from + 1;
    }
    let mut to: usize = n;
    assert(s@.subrange(from as int, n as int) == s@.skip(from as int));
    while to > from && space(cs[to - 1])
        invariant
            from <= to <= n,
            n == cs@.len(),
            cs@ == s@,
            trim_end(s@.subrange(from as int, to as int)) == trimmed(s@),
        decreases to,
    {
        assert(s@.subrange(from as int, to as int).drop_last() == s@.subrange(
            from as int,
            to - 1,
        ));
        to = to - 1;
    }
    s.substring_char(from, to).to_owned()
}

// ---------------------------------------------------------------------------
// Lower case, and bytes as text
// ---------------------------------------------------------------------------

/// What `str::to_lowercase` makes of a text: its lower case by Unicode's rules.
pub uninterp spec fn lowercase(s: Seq<char>) -> Seq<char>;

/// Whether a text is of ASCII characters alone.
pub open spec fn all_ascii(s: Seq<char>) -> bool {
    forall|i: int| 0 <= i < s.len() ==> #[trigger] s[i] <= '\u{7f}'
}

/// A text with its letters from `A` to `Z` in lower case.
pub open spec fn ascii_lowercase(s: Seq<char>) -> Seq<char> {
    s.map_values(
        |c: char|
            if 'A' <= c <= 'Z' {
                (c as u32 + 32) as char
            } else {
                c
            },
    )
}

/// `str::to_lowercase`: the text in lower case, named by `lowercase`. Of a text of ASCII characters
/// alone it is the text with the letters from `A` to `Z` put into lower case.
#[verifier::external_body]
pub(crate) fn to_lower(s: &str) -> (r: String)
    ensures
        r@ == lowercase(s@),
        all_ascii(s@) ==> r@ == ascii_lowercase(s@),
{
    s.to_lowercase()
}

/// What `String::from_utf8_lossy` makes of bytes: their text, with a replacement character for
/// what is not UTF-8.
pub uninterp spec fn utf8_lossy(bytes: Seq<u8>) -> Seq<char>;

/// `String::from_utf8_lossy`: the text of bytes, named by `utf8_lossy`. Bytes that are UTF-8 give
/// the text that they encode.
#[verifier::external_body]
pub(crate) fn from_utf8_lossy(bytes: &[u8]) -> (r: String)
    ensures
        r@ == utf8_lossy(bytes@),
        vstd::utf8::valid_utf8(bytes@) ==> r@ == vstd::utf8::decode_utf8(bytes@),
{
    String::from_utf8_lossy(bytes).into_owned()
}

// ---------------------------------------------------------------------------
// Splitting at a character, and joining
// ---------------------------------------------------------------------------

/// How many characters stand before the first `c`.
pub open spec fn len_to(s: Seq<char>, c: char) -> nat
    decreases s.len(),
{
    if s.len() == 0 || s[0] == c {
        0
    } else {
        1 + len_to(s.drop_first(), c)
    }
}

/// The pieces of a text between the occurrences of `c`.
pub open spec fn pieces(s: Seq<char>, c: char) -> Seq<Seq<char>>
    decreases s.len(),
{
    let n = len_to(s, c);
    if n < s.len() {
        seq![s.take(n as int)] + pieces(s.skip(n as int + 1), c)
    } else {
        seq![s]
    }
}

/// What `len_to` counts: no `c` before that place, and `c` at it.
pub proof fn lemma_len_to(s: Seq<char>, c: char)
    ensures
        len_to(s, c) <= s.len(),
        forall|i: int| 0 <= i < len_to(s, c) ==> #[trigger] s[i] != c,
        len_to(s, c) < s.len() ==> s[len_to(s, c) as int] == c,
    decreases s.len(),
{
    if s.len() > 0 && s[0] != c {
        let t = s.drop_first();
        lemma_len_to(t, c);
        assert forall|i: int| 0 <= i < len_to(s, c) implies #[trigger] s[i] != c by {
            if i > 0 {
                assert(s[i] == t[i - 1]);
            }
        }
    }
}

/// A run without `c` that ends at `c` or at the end has just that length.
proof fn lemma_len_to_is(s: Seq<char>, c: char, n: nat)
    requires
        n <= s.len(),
        forall|i: int| 0 <= i < n ==> #[trigger] s[i] != c,
        n < s.len() ==> s[n as int] == c,
    ensures
        len_to(s, c) == n,
{
    lemma_len_to(s, c);
    if len_to(s, c) < n {
        assert(s[len_to(s, c) as int] != c);
    }
}

/// The pieces of a text between the occurrences of `c`.
pub fn split(s: &str, c: char) -> (r: Vec<String>)
    ensures
        texts(r@) == pieces(s@, c),
{
    let cs: Vec<char> = chars_of(s);
    let n: usize = cs.len();
    let mut r: Vec<String> = Vec::new();
    let mut from: usize = 0;
    let mut i: usize = 0;
    assert(s@.skip(0) == s@);
    assert(texts(r@) + pieces(s@, c) == pieces(s@, c));
    while i < n
        invariant
            from <= i <= n,
            n == cs@.len(),
            cs@ == s@,
            forall|j: int| from <= j < i ==> #[trigger] s@[j] != c,
            texts(r@) + pieces(s@.skip(from as int), c) == pieces(s@, c),
        decreases n - i,
    {
        if cs[i] == c {
            let w: String = s.substring_char(from, i).to_owned();
            proof {
                let rest = s@.skip(from as int);
                let k = (i - from) as nat;
                assert forall|j: int| 0 <= j < k implies #[trigger] rest[j] != c by {
                    assert(rest[j] == s@[from + j]);
                }
                assert(rest[k as int] == s@[i as int]);
                lemma_len_to_is(rest, c, k);
                assert(rest.take(k as int) == w@);
                assert(rest.skip(k as int + 1) == s@.skip(i + 1));
                assert(texts(r@.push(w)) == texts(r@).push(w@));
                assert(texts(r@).push(w@) + pieces(s@.skip(i + 1), c) == texts(r@) + pieces(
                    rest,
                    c,
                ));
            }
            r.push(w);
            from = i + 1;
        }
        i = i + 1;
    }
    let w: String = s.substring_char(from, n).to_owned();
    proof {
        let rest = s@.skip(from as int);
        assert forall|j: int| 0 <= j < rest.len() implies #[trigger] rest[j] != c by {
            assert(rest[j] == s@[from + j]);
        }
        lemma_len_to_is(rest, c, rest.len());
        assert(w@ == rest);
        assert(texts(r@.push(w)) == texts(r@).push(w@));
        assert(texts(r@).push(w@) == texts(r@) + pieces(rest, c));
    }
    r.push(w);
    r
}

/// What stands behind the last `c` of a text, or all of it where there is none.
pub open spec fn after_last(s: Seq<char>, c: char) -> Seq<char>
    decreases s.len(),
{
    if s.len() == 0 || s.last() == c {
        Seq::empty()
    } else {
        after_last(s.drop_last(), c).push(s.last())
    }
}

/// What stands behind the last `c` of a text, or all of it where there is none.
pub fn tail_after(s: &str, c: char) -> (r: String)
    ensures
        r@ == after_last(s@, c),
{
    let cs: Vec<char> = chars_of(s);
    let n: usize = cs.len();
    let mut from: usize = n;
    assert(s@.take(n as int) == s@);
    assert(after_last(s@, c) == after_last(s@, c) + s@.skip(n as int));
    while from > 0 && cs[from - 1] != c
        invariant
            from <= n,
            n == cs@.len(),
            cs@ == s@,
            after_last(s@, c) == after_last(s@.take(from as int), c) + s@.skip(from as int),
        decreases from,
    {
        proof {
            let t = s@.take(from as int);
            assert(t.drop_last() == s@.take(from - 1));
            assert(t.last() == s@[from - 1]);
            assert(after_last(t.drop_last(), c).push(t.last()) + s@.skip(from as int)
                == after_last(t.drop_last(), c) + s@.skip(from - 1));
        }
        from = from - 1;
    }
    proof {
        let t = s@.take(from as int);
        if from > 0 {
            assert(t.last() == s@[from - 1]);
        }
        assert(after_last(t, c) == Seq::<char>::empty());
        assert(after_last(s@, c) == s@.skip(from as int));
        assert(s@.subrange(from as int, n as int) == s@.skip(from as int));
    }
    s.substring_char(from, n).to_owned()
}

/// The texts of a list with `sep` between every two.
pub open spec fn joined(v: Seq<Seq<char>>, sep: Seq<char>) -> Seq<char>
    decreases v.len(),
{
    if v.len() == 0 {
        Seq::empty()
    } else if v.len() == 1 {
        v[0]
    } else {
        joined(v.drop_last(), sep) + sep + v.last()
    }
}

/// The strings of a list with `sep` between every two.
pub fn join(v: &Vec<String>, sep: &str) -> (r: String)
    ensures
        r@ == joined(texts(v@), sep@),
{
    let mut r: String = String::new();
    let mut i: usize = 0;
    while i < v.len()
        invariant
            i <= v@.len(),
            r@ == joined(texts(v@).take(i as int), sep@),
        decreases v@.len() - i,
    {
        if i > 0 {
            r.append(sep);
        }
        r.append(v[i].as_str());
        proof {
            let t = texts(v@).take(i + 1);
            assert(t.drop_last() == texts(v@).take(i as int));
            assert(t.last() == v@[i as int]@);
            if i == 0 {
                assert(r@ == t[0]);
            }
        }
        i = i + 1;
    }
    assert(texts(v@).take(v@.len() as int) == texts(v@));
    r
}

// ---------------------------------------------------------------------------
// Decimal numbers
// ---------------------------------------------------------------------------

/// The ASCII digits.
pub open spec fn is_digit(c: char) -> bool {
    '0' <= c <= '9'
}

/// The number that a run of digits stands for.
pub open spec fn value(digits: Seq<char>) -> nat
    decreases digits.len(),
{
    if digits.len() == 0 {
        0
    } else {
        value(digits.drop_last()) * 10 + (digits.last() as nat - '0' as nat) as nat
    }
}

/// A text without one leading plus sign.
pub open spec fn unsigned_part(s: Seq<char>) -> Seq<char> {
    if s.len() > 0 && s[0] == '+' {
        s.drop_first()
    } else {
        s
    }
}

/// The number not above `max` that a text spells: digits alone, at least one, behind an optional
/// plus sign.
pub open spec fn number(s: Seq<char>, max: nat) -> Option<nat> {
    let digits = unsigned_part(s);
    if digits.len() > 0 && (forall|i: int| 0 <= i < digits.len() ==> is_digit(#[trigger] digits[i]))
        && value(digits) <= max {
        Some(value(digits))
    } else {
        None
    }
}

/// More digits never stand for less.
proof fn lemma_value_grows(digits: Seq<char>, n: int)
    requires
        0 <= n <= digits.len(),
    ensures
        value(digits.take(n)) <= value(digits),
    decreases digits.len() - n,
{
    if n < digits.len() {
        lemma_value_grows(digits, n + 1);
        assert(digits.take(n + 1).drop_last() == digits.take(n));
    } else {
        assert(digits.take(n) == digits);
    }
}

/// Reads a number of 64 bits.
pub fn parse_u64(s: &str) -> (r: Option<u64>)
    ensures
        r matches Some(n) ==> number(s@, u64::MAX as nat) == Some(n as nat),
        r is None ==> number(s@, u64::MAX as nat) is None,
{
    let cs: Vec<char> = chars_of(s);
    let n: usize = cs.len();
    let from: usize = if n > 0 && cs[0] == '+' { 1 } else { 0 };
    let ghost digits = unsigned_part(s@);
    assert(digits == s@.skip(from as int));
    if from == n {
        return None;
    }
    let mut i: usize = from;
    let mut sum: u64 = 0;
    while i < n
        invariant
            from <= i <= n,
            n == cs@.len(),
            cs@ == s@,
            digits == s@.skip(from as int),
            digits == unsigned_part(s@),
            sum == value(digits.take(i - from)),
            forall|j: int| 0 <= j < i - from ==> is_digit(#[trigger] digits[j]),
        decreases n - i,
    {
        let c: char = cs[i];
        assert(digits[i - from] == c);
        if c < '0' || c > '9' {
            return None;
        }
        let d: u64 = (c as u32 - '0' as u32) as u64;
        proof {
            assert(digits.take(i + 1 - from).drop_last() == digits.take(i - from));
            assert(digits.take(i + 1 - from).last() == c);
            lemma_value_grows(digits, i + 1 - from);
        }
        if sum > (u64::MAX - d) / 10 {
            assert(sum * 10 + d > u64::MAX);
            return None;
        }
        sum = sum * 10 + d;
        i = i + 1;
    }
    assert(digits.take(n - from) == digits);
    Some(sum)
}

/// Reads a number of 16 bits.
pub fn parse_u16(s: &str) -> (r: Option<u16>)
    ensures
        r matches Some(n) ==> number(s@, u16::MAX as nat) == Some(n as nat),
        r is None ==> number(s@, u16::MAX as nat) is None,
{
    match parse_u64(s) {
        Some(n) => {
            if n <= 65535 {
                Some(n as u16)
            } else {
                None
            }
        },
        None => None,
    }
}

/// The digit of a number below ten.
pub open spec fn digit(d: nat) -> char {
    ('0' as nat + d) as char
}

/// A number in decimal, without leading zeros.
pub open spec fn decimal(n: nat) -> Seq<char>
    decreases n,
{
    if n < 10 {
        seq![digit(n)]
    } else {
        decimal(n / 10).push(digit(n % 10))
    }
}

/// The digit of a number below ten, as text.
fn digit_text(d: u64) -> (r: &'static str)
    requires
        d < 10,
    ensures
        r@ == seq![digit(d as nat)],
{
    proof {
        reveal_strlit("0");
        reveal_strlit("1");
        reveal_strlit("2");
        reveal_strlit("3");
        reveal_strlit("4");
        reveal_strlit("5");
        reveal_strlit("6");
        reveal_strlit("7");
        reveal_strlit("8");
        reveal_strlit("9");
    }
    if d == 0 {
        "0"
    } else if d == 1 {
        "1"
    } else if d == 2 {
        "2"
    } else if d == 3 {
        "3"
    } else if d == 4 {
        "4"
    } else if d == 5 {
        "5"
    } else if d == 6 {
        "6"
    } else if d == 7 {
        "7"
    } else if d == 8 {
        "8"
    } else {
        "9"
    }
}

/// A number in decimal.
pub fn to_decimal(n: u64) -> (r: String)
    ensures
        r@ == decimal(n as nat),
    decreases n,
{
    if n < 10 {
        digit_text(n).to_owned()
    } else {
        let mut r: String = to_decimal(n / 10);
        r.append(digit_text(n % 10));
        r
    }
}

/// A number in decimal with at least two digits.
pub open spec fn two_digits(n: nat) -> Seq<char> {
    if n < 10 {
        seq!['0'] + decimal(n)
    } else {
        decimal(n)
    }
}

/// A number in decimal with at least two digits.
pub fn to_two_digits(n: u64) -> (r: String)
    ensures
        r@ == two_digits(n as nat),
{
    if n < 10 {
        proof {
            reveal_strlit("0");
            assert("0"@ == seq!['0']);
        }
        let mut r: String = "0".to_owned();
        r.append(to_decimal(n).as_str());
        r
    } else {
        to_decimal(n)
    }
}

// ---------------------------------------------------------------------------
// What reading, splitting and joining have to do with each other
// ---------------------------------------------------------------------------

/// A number in decimal is digits alone, at least one, and they stand for the number.
pub proof fn lemma_decimal(n: nat)
    ensures
        decimal(n).len() > 0,
        forall|i: int| 0 <= i < decimal(n).len() ==> is_digit(#[trigger] decimal(n)[i]),
        value(decimal(n)) == n,
    decreases n,
{
    if n < 10 {
        let d = decimal(n);
        assert(d.drop_last() == Seq::<char>::empty());
        assert(value(Seq::<char>::empty()) == 0);
        assert(d.last() == digit(n));
    } else {
        lemma_decimal(n / 10);
        let front = decimal(n / 10);
        let d = decimal(n);
        assert(d.drop_last() == front);
        assert(d.last() == digit(n % 10));
        assert forall|i: int| 0 <= i < d.len() implies is_digit(#[trigger] d[i]) by {
            if i < front.len() {
                assert(d[i] == front[i]);
            }
        }
    }
}

/// Reading gives back every number that was written.
pub proof fn reading_undoes_writing(n: nat, max: nat)
    requires
        n <= max,
    ensures
        number(decimal(n), max) == Some(n),
{
    lemma_decimal(n);
    assert(is_digit(decimal(n)[0]));
    assert(unsigned_part(decimal(n)) == decimal(n));
}

/// White space between two texts keeps their words apart.
pub proof fn lemma_words_apart(a: Seq<char>, c: char, b: Seq<char>)
    requires
        is_space(c),
    ensures
        words(a + seq![c] + b) == words(a) + words(b),
    decreases a.len(),
{
    let s = a + seq![c] + b;
    if a.len() == 0 {
        assert(s.drop_first() == b);
        assert(words(a) + words(b) == words(b));
    } else if is_space(a[0]) {
        assert(s.drop_first() == a.drop_first() + seq![c] + b);
        lemma_words_apart(a.drop_first(), c, b);
    } else {
        let n = ink_len(a);
        lemma_ink_len(a);
        assert forall|i: int| 0 <= i < n implies !is_space(#[trigger] s[i]) by {
            assert(s[i] == a[i]);
        }
        lemma_ink_len_is(s, n);
        assert(n > 0) by {
            assert(!is_space(a[0]));
        }
        assert(s.take(n as int) == a.take(n as int));
        assert(s.skip(n as int) == a.skip(n as int) + seq![c] + b);
        lemma_words_apart(a.skip(n as int), c, b);
        assert(seq![a.take(n as int)] + (words(a.skip(n as int)) + words(b)) == words(a) + words(
            b,
        ));
    }
}

/// A text that is one word.
pub open spec fn is_word(w: Seq<char>) -> bool {
    w.len() > 0 && forall|i: int| 0 <= i < w.len() ==> !is_space(#[trigger] w[i])
}

/// A word alone is the one word of its text.
pub proof fn lemma_one_word(w: Seq<char>)
    requires
        is_word(w),
    ensures
        words(w) == seq![w],
{
    lemma_ink_len_is(w, w.len());
    assert(w.take(w.len() as int) == w);
    assert(w.skip(w.len() as int).len() == 0);
    assert(seq![w] + words(w.skip(w.len() as int)) == seq![w]);
}

/// Splitting gives back the words of every list of words that was joined with a space.
pub proof fn splitting_undoes_joining(ws: Seq<Seq<char>>)
    requires
        forall|i: int| 0 <= i < ws.len() ==> is_word(#[trigger] ws[i]),
    ensures
        words(joined(ws, seq![' '])) == ws,
    decreases ws.len(),
{
    if ws.len() == 0 {
        assert(ws == Seq::<Seq<char>>::empty());
    } else if ws.len() == 1 {
        lemma_one_word(ws[0]);
        assert(ws == seq![ws[0]]);
    } else {
        let front = ws.drop_last();
        assert forall|i: int| 0 <= i < front.len() implies is_word(#[trigger] front[i]) by {
            assert(front[i] == ws[i]);
        }
        splitting_undoes_joining(front);
        assert(is_word(ws.last())) by {
            assert(ws.last() == ws[ws.len() - 1]);
        }
        lemma_one_word(ws.last());
        lemma_words_apart(joined(front, seq![' ']), ' ', ws.last());
        assert(front + seq![ws.last()] == ws);
    }
}

proof fn lemma_words_are_words(s: Seq<char>)
    ensures
        forall|i: int| 0 <= i < words(s).len() ==> is_word(#[trigger] words(s)[i]),
    decreases s.len(),
{
    if s.len() == 0 {
    } else if is_space(s[0]) {
        lemma_words_are_words(s.drop_first());
        assert(words(s) == words(s.drop_first()));
    } else {
        let n = ink_len(s) as int;
        lemma_ink_len(s);
        assert(n > 0);
        let rest = words(s.skip(n));
        lemma_words_are_words(s.skip(n));
        let w = s.take(n);
        assert forall|i: int| 0 <= i < w.len() implies !is_space(#[trigger] w[i]) by {
            assert(w[i] == s[i]);
        }
        assert forall|i: int| 0 <= i < words(s).len() implies is_word(#[trigger] words(s)[i]) by {
            if i == 0 {
                assert(words(s)[0] == w);
            } else {
                assert(words(s)[i] == rest[i - 1]);
            }
        }
    }
}

/// Words are never empty and hold no white space, so that joined with spaces they split the same
/// way again.
pub proof fn words_split_the_same_again(s: Seq<char>)
    ensures
        forall|i: int| 0 <= i < words(s).len() ==> is_word(#[trigger] words(s)[i]),
        words(joined(words(s), seq![' '])) == words(s),
{
    lemma_words_are_words(s);
    splitting_undoes_joining(words(s));
}

/// A text up to the first `c` is the first piece, and what follows is split on.
pub proof fn lemma_pieces_apart(a: Seq<char>, c: char, b: Seq<char>)
    requires
        !a.contains(c),
    ensures
        pieces(a + seq![c] + b, c) == seq![a] + pieces(b, c),
{
    let s = a + seq![c] + b;
    assert forall|i: int| 0 <= i < a.len() implies #[trigger] s[i] != c by {
        assert(s[i] == a[i]);
        assert(a.contains(a[i]));
    }
    lemma_len_to_is(s, c, a.len());
    assert(s.take(a.len() as int) == a);
    assert(s.skip(a.len() as int + 1) == b);
}

/// A text without `c` is one piece.
pub proof fn lemma_pieces_one(a: Seq<char>, c: char)
    requires
        !a.contains(c),
    ensures
        pieces(a, c) == seq![a],
{
    assert forall|i: int| 0 <= i < a.len() implies #[trigger] a[i] != c by {
        assert(a.contains(a[i]));
    }
    lemma_len_to_is(a, c, a.len());
}

/// What stands behind a `c` that no other follows is what stands behind the last.
pub proof fn lemma_after_last(a: Seq<char>, c: char, b: Seq<char>)
    requires
        !b.contains(c),
    ensures
        after_last(a + seq![c] + b, c) == b,
    decreases b.len(),
{
    let s = a + seq![c] + b;
    if b.len() > 0 {
        assert(b.contains(b[b.len() - 1]));
        assert(!b.drop_last().contains(c)) by {
            if b.drop_last().contains(c) {
                let i = choose|i: int| 0 <= i < b.len() - 1 && b.drop_last()[i] == c;
                assert(b[i] == c);
            }
        }
        assert(s.drop_last() == a + seq![c] + b.drop_last());
        lemma_after_last(a, c, b.drop_last());
        assert(b.drop_last().push(b.last()) == b);
    }
}

} // verus!
