//! Text as the rest of the library reads it: a sequence of characters.
use vstd::prelude::*;
use vstd::utf8::*;

verus! {

/// What `str::to_lowercase` makes of a text.
pub uninterp spec fn lowercased(text: Seq<char>) -> Seq<char>;

/// Calls `str::to_lowercase`, which maps a text to lower case by the Unicode
/// rules, whatever the locale. The result is only given a name: it is the same
/// for the same text.
#[verifier::external_body]
pub(crate) fn lowercase(text: &str) -> (lower: String)
    ensures
        lower@ == lowercased(text@),
{
    text.to_lowercase()
}

/// Whether a character has the Unicode property `White_Space`.
pub open spec fn whitespace(c: char) -> bool {
    ||| '\u{9}' <= c <= '\u{d}'
    ||| c == ' '
    ||| c == '\u{85}'
    ||| c == '\u{a0}'
    ||| c == '\u{1680}'
    ||| '\u{2000}' <= c <= '\u{200a}'
    ||| c == '\u{2028}'
    ||| c == '\u{2029}'
    ||| c == '\u{202f}'
    ||| c == '\u{205f}'
    ||| c == '\u{3000}'
}

/// Whether a character is white space, as `char::is_whitespace` tells it.
pub(crate) fn is_space(c: char) -> (yes: bool)
    ensures
        yes == whitespace(c),
{
    ('\u{9}' <= c && c <= '\u{d}') || c == ' ' || c == '\u{85}' || c == '\u{a0}'
        || c == '\u{1680}' || ('\u{2000}' <= c && c <= '\u{200a}') || c == '\u{2028}'
        || c == '\u{2029}' || c == '\u{202f}' || c == '\u{205f}' || c == '\u{3000}'
}

/// `String::push` adds one character at the end.
pub assume_specification[ String::push ](s: &mut String, c: char)
    ensures
        final(s)@ == old(s)@.push(c),
;

/// The characters of a text, one by one.
pub fn chars_of(text: &str) -> (chars: Vec<char>)
    ensures
        chars@ == text@,
{
    let mut chars: Vec<char> = Vec::new();
    for c in it: text.chars()
        invariant
            chars@ == text@.take(it.index()),
            it.seq() == text@,
    {
        proof {
            assert(text@.take(it.index() + 1) =~= text@.take(it.index()).push(c));
        }
        chars.push(c);
    }
    assert(text@.take(text@.len() as int) =~= text@);
    chars
}

/// The text made of the characters from `start` up to `end`.
pub fn slice_text(chars: &Vec<char>, start: usize, end: usize) -> (text: String)
    requires
        start <= end <= chars@.len(),
    ensures
        text@ == chars@.subrange(start as int, end as int),
{
    let mut text = String::new();
    let mut i: usize = start;
    assert(chars@.subrange(start as int, start as int) =~= Seq::<char>::empty());
    while i < end
        invariant
            start <= i <= end <= chars@.len(),
            text@ == chars@.subrange(start as int, i as int),
        decreases end - i,
    {
        proof {
            assert(chars@.subrange(start as int, i as int + 1) =~= chars@.subrange(
                start as int,
                i as int,
            ).push(chars@[i as int]));
        }
        text.push(chars[i]);
        i = i + 1;
    }
    text
}

/// Two texts whose bytes are the same are the same text.
pub proof fn lemma_same_bytes(a: Seq<char>, b: Seq<char>)
    requires
        encode_utf8(a) == encode_utf8(b),
    ensures
        a == b,
{
    encode_utf8_decode_utf8(a);
    encode_utf8_decode_utf8(b);
}

/// Whether two texts are the same.
pub fn same_text(a: &str, b: &str) -> (same: bool)
    ensures
        same == (a@ == b@),
{
    let x = a.as_bytes();
    let y = b.as_bytes();
    if x.len() != y.len() {
        return false;
    }
    let mut i: usize = 0;
    while i < x.len()
        invariant
            x@ == encode_utf8(a@),
            y@ == encode_utf8(b@),
            x@.len() == y@.len(),
            i <= x@.len(),
            forall|j: int| 0 <= j < i ==> x@[j] == y@[j],
        decreases x@.len() - i,
    {
        if x[i] != y[i] {
            return false;
        }
        i = i + 1;
    }
    proof {
        assert(x@ =~= y@);
        lemma_same_bytes(a@, b@);
    }
    true
}

/// Comparison whose duration does not depend on where the mismatch is, so a
/// verification code cannot be recovered byte by byte.
pub fn constant_time_eq(a: &str, b: &str) -> (same: bool)
    ensures
        same == (a@ == b@),
{
    let x = a.as_bytes();
    let y = b.as_bytes();
    if x.len() != y.len() {
        return false;
    }
    let mut differing: u8 = 0;
    let mut i: usize = 0;
    while i < x.len()
        invariant
            x@.len() == y@.len(),
            i <= x@.len(),
            differing == 0 <==> (forall|j: int| 0 <= j < i ==> x@[j] == y@[j]),
        decreases x@.len() - i,
    {
        let p: u8 = x[i];
        let q: u8 = y[i];
        let next: u8 = differing | (p ^ q);
        proof {
            assert(next == 0 <==> (differing == 0 && p == q)) by (bit_vector)
                requires
                    next == differing | (p ^ q),
            ;
        }
        differing = next;
        i = i + 1;
    }
    proof {
        if differing == 0 {
            assert(x@ =~= y@);
            lemma_same_bytes(a@, b@);
        }
    }
    differing == 0
}

/// Whether `text` begins with `prefix`.
pub open spec fn has_prefix(text: Seq<char>, prefix: Seq<char>) -> bool {
    prefix.len() <= text.len() && text.take(prefix.len() as int) == prefix
}

/// Whether `text` ends with `suffix`.
pub open spec fn has_suffix(text: Seq<char>, suffix: Seq<char>) -> bool {
    suffix.len() <= text.len() && text.skip(text.len() - suffix.len()) == suffix
}

/// Whether the characters of `part` stand in `chars` from `at` on.
fn stands_at(chars: &Vec<char>, part: &Vec<char>, at: usize) -> (yes: bool)
    requires
        at + part.len() <= chars.len(),
    ensures
        yes == (chars@.subrange(at as int, at + part@.len()) == part@),
{
    let mut i: usize = 0;
    while i < part.len()
        invariant
            at + part.len() <= chars.len(),
            i <= part@.len(),
            forall|j: int| 0 <= j < i ==> chars@[at + j] == part@[j],
        decreases part@.len() - i,
    {
        if chars[at + i] != part[i] {
            proof {
                assert(chars@.subrange(at as int, at + part@.len())[i as int] != part@[i as int]);
            }
            return false;
        }
        i = i + 1;
    }
    assert(chars@.subrange(at as int, at + part@.len()) =~= part@);
    true
}

/// Whether `text` begins with `prefix`.
pub fn starts_with(text: &str, prefix: &str) -> (yes: bool)
    ensures
        yes == has_prefix(text@, prefix@),
{
    let chars = chars_of(text);
    let part = chars_of(prefix);
    if part.len() > chars.len() {
        return false;
    }
    assert(chars@.subrange(0, part@.len() as int) =~= chars@.take(part@.len() as int));
    stands_at(&chars, &part, 0)
}

/// What is left of `text` behind `prefix`, if it begins with it.
pub fn strip_prefix(text: &str, prefix: &str) -> (rest: Option<String>)
    ensures
        match rest {
            Some(r) => has_prefix(text@, prefix@) && r@ == text@.skip(prefix@.len() as int),
            None => !has_prefix(text@, prefix@),
        },
{
    let chars = chars_of(text);
    let part = chars_of(prefix);
    if part.len() > chars.len() {
        return None;
    }
    assert(chars@.subrange(0, part@.len() as int) =~= chars@.take(part@.len() as int));
    if stands_at(&chars, &part, 0) {
        let rest = slice_text(&chars, part.len(), chars.len());
        assert(rest@ =~= text@.skip(prefix@.len() as int));
        Some(rest)
    } else {
        None
    }
}

/// What is left of `text` before `suffix`, if it ends with it.
pub fn strip_suffix(text: &str, suffix: &str) -> (rest: Option<String>)
    ensures
        match rest {
            Some(r) => has_suffix(text@, suffix@) && r@ == text@.take(text@.len() - suffix@.len()),
            None => !has_suffix(text@, suffix@),
        },
{
    let chars = chars_of(text);
    let part = chars_of(suffix);
    if part.len() > chars.len() {
        return None;
    }
    let at: usize = chars.len() - part.len();
    assert(chars@.subrange(at as int, at + part@.len()) =~= chars@.skip(at as int));
    if stands_at(&chars, &part, at) {
        let rest = slice_text(&chars, 0, at);
        assert(rest@ =~= text@.take(text@.len() - suffix@.len()));
        Some(rest)
    } else {
        None
    }
}

/// Whether the character occurs in the text.
pub fn contains_char(text: &str, wanted: char) -> (yes: bool)
    ensures
        yes == text@.contains(wanted),
{
    let chars = chars_of(text);
    let mut i: usize = 0;
    while i < chars.len()
        invariant
            chars@ == text@,
            i <= chars@.len(),
            forall|j: int| 0 <= j < i ==> chars@[j] != wanted,
        decreases chars@.len() - i,
    {
        if chars[i] == wanted {
            assert(text@[i as int] == wanted);
            return true;
        }
        i = i + 1;
    }
    false
}

/// `text` without the whitespace before its first other character.
pub open spec fn trimmed_start(text: Seq<char>) -> Seq<char>
    decreases text.len(),
{
    if text.len() > 0 && whitespace(text[0]) {
        trimmed_start(text.drop_first())
    } else {
        text
    }
}

/// `text` without the whitespace behind its last other character.
pub open spec fn trimmed_end(text: Seq<char>) -> Seq<char>
    decreases text.len(),
{
    if text.len() > 0 && whitespace(text.last()) {
        trimmed_end(text.drop_last())
    } else {
        text
    }
}

/// `text` without the whitespace at either end.
pub open spec fn trimmed(text: Seq<char>) -> Seq<char> {
    trimmed_end(trimmed_start(text))
}

/// The text without the whitespace at either end.
pub fn trim(text: &str) -> (inner: String)
    ensures
        inner@ == trimmed(text@),
{
    let chars = chars_of(text);
    let mut start: usize = 0;
    assert(chars@.skip(0) =~= chars@);
    while start < chars.len() && is_space(chars[start])
        invariant
            start <= chars@.len(),
            trimmed_start(chars@) == trimmed_start(chars@.skip(start as int)),
        ensures
            start <= chars@.len(),
            trimmed_start(chars@) == chars@.skip(start as int),
        decreases chars@.len() - start,
    {
        proof {
            assert(chars@.skip(start as int).drop_first() =~= chars@.skip(start + 1));
        }
        start = start + 1;
    }
    let mut end: usize = chars.len();
    let ghost rest = chars@.skip(start as int);
    assert(rest.take(end - start) =~= rest);
    while end > start && is_space(chars[end - 1])
        invariant
            start <= end <= chars@.len(),
            rest == chars@.skip(start as int),
            trimmed_end(rest) == trimmed_end(rest.take(end - start)),
        ensures
            start <= end <= chars@.len(),
            trimmed_end(rest) == rest.take(end - start),
        decreases end,
    {
        proof {
            assert(rest.take(end - start).drop_last() =~= rest.take(end - start - 1));
        }
        end = end - 1;
    }
    assert(rest.take(end - start) =~= chars@.subrange(start as int, end as int));
    slice_text(&chars, start, end)
}

/// `text` without the characters `c` that it ends with.
pub open spec fn without_trailing(text: Seq<char>, c: char) -> Seq<char>
    decreases text.len(),
{
    if text.len() > 0 && text.last() == c {
        without_trailing(text.drop_last(), c)
    } else {
        text
    }
}

/// The text without the characters `c` that it ends with.
pub fn trim_trailing(text: &str, c: char) -> (front: String)
    ensures
        front@ == without_trailing(text@, c),
{
    let chars = chars_of(text);
    let mut end: usize = chars.len();
    assert(chars@.take(end as int) =~= chars@);
    while end > 0 && chars[end - 1] == c
        invariant
            end <= chars@.len(),
            without_trailing(chars@, c) == without_trailing(chars@.take(end as int), c),
        ensures
            end <= chars@.len(),
            without_trailing(chars@, c) == chars@.take(end as int),
        decreases end,
    {
        proof {
            assert(chars@.take(end as int).drop_last() =~= chars@.take(end - 1));
        }
        end = end - 1;
    }
    assert(chars@.take(end as int) =~= chars@.subrange(0, end as int));
    slice_text(&chars, 0, end)
}

/// `text` without the characters `c` that it begins with.
pub open spec fn without_leading(text: Seq<char>, c: char) -> Seq<char>
    decreases text.len(),
{
    if text.len() > 0 && text[0] == c {
        without_leading(text.drop_first(), c)
    } else {
        text
    }
}

/// The text without the characters `c` that it begins with.
pub fn trim_leading(text: &str, c: char) -> (rest: String)
    ensures
        rest@ == without_leading(text@, c),
{
    let chars = chars_of(text);
    let mut start: usize = 0;
    assert(chars@.skip(0) =~= chars@);
    while start < chars.len() && chars[start] == c
        invariant
            start <= chars@.len(),
            without_leading(chars@, c) == without_leading(chars@.skip(start as int), c),
        ensures
            start <= chars@.len(),
            without_leading(chars@, c) == chars@.skip(start as int),
        decreases chars@.len() - start,
    {
        proof {
            assert(chars@.skip(start as int).drop_first() =~= chars@.skip(start + 1));
        }
        start = start + 1;
    }
    assert(chars@.skip(start as int) =~= chars@.subrange(start as int, chars@.len() as int));
    slice_text(&chars, start, chars.len())
}

/// Whether the character is one of `0` to `9`.
pub open spec fn is_digit(c: char) -> bool {
    '0' <= c && c <= '9'
}

/// The digit for a number below ten.
pub open spec fn digit(n: nat) -> char {
    (48 + n) as char
}

/// The number that a digit stands for.
pub open spec fn digit_value(c: char) -> nat {
    (c as nat - 48) as nat
}

/// A number in decimal, without leading zeros.
pub open spec fn decimal(n: nat) -> Seq<char>
    decreases n,
{
    if n < 10 {
        seq![digit(n)]
    } else {
        decimal(n / 10).push(digit(n % 10))
    }
}

/// Whether a text consists of digits.
pub open spec fn all_digits(text: Seq<char>) -> bool {
    forall|i: int| 0 <= i < text.len() ==> is_digit(#[trigger] text[i])
}

/// The number that a row of digits stands for.
pub open spec fn digits_value(text: Seq<char>) -> nat
    decreases text.len(),
{
    if text.len() == 0 {
        0
    } else {
        digits_value(text.drop_last()) * 10 + digit_value(text.last())
    }
}

/// The number that a text stands for: at least one digit, behind one optional
/// plus sign.
pub open spec fn number_in(text: Seq<char>) -> Option<nat> {
    let digits = if text.len() > 0 && text[0] == '+' {
        text.drop_first()
    } else {
        text
    };
    if digits.len() > 0 && all_digits(digits) {
        Some(digits_value(digits))
    } else {
        None
    }
}

/// The integer that a text stands for: at least one digit, behind one optional
/// sign.
pub open spec fn integer_in(text: Seq<char>) -> Option<int> {
    if text.len() > 0 && text[0] == '-' {
        let digits = text.drop_first();
        if digits.len() > 0 && all_digits(digits) {
            Some(-(digits_value(digits) as int))
        } else {
            None
        }
    } else {
        match number_in(text) {
            Some(n) => Some(n as int),
            None => None,
        }
    }
}

/// An integer in decimal, with a minus sign where it is negative.
pub open spec fn signed_decimal(n: int) -> Seq<char> {
    if n < 0 {
        seq!['-'] + decimal((-n) as nat)
    } else {
        decimal(n as nat)
    }
}

proof fn lemma_value_grows(text: Seq<char>, n: int)
    requires
        0 <= n <= text.len(),
    ensures
        digits_value(text.take(n)) <= digits_value(text),
    decreases text.len(),
{
    if n < text.len() {
        lemma_value_grows(text.drop_last(), n);
        assert(text.drop_last().take(n) =~= text.take(n));
    } else {
        assert(text.take(n) =~= text);
    }
}

/// Reads the digits from `start` on, as long as their value fits.
fn read_digits(chars: &Vec<char>, start: usize) -> (value: Option<u64>)
    requires
        start <= chars@.len(),
    ensures
        ({
            let digits = chars@.skip(start as int);
            match value {
                Some(v) => digits.len() > 0 && all_digits(digits) && digits_value(digits) == v,
                None => !(digits.len() > 0 && all_digits(digits)) || digits_value(digits)
                    > u64::MAX,
            }
        }),
{
    let ghost digits = chars@.skip(start as int);
    if start == chars.len() {
        return None;
    }
    let mut value: u64 = 0;
    let mut i: usize = start;
    assert(digits.take(0) =~= Seq::<char>::empty());
    while i < chars.len()
        invariant
            start <= i <= chars@.len(),
            digits == chars@.skip(start as int),
            all_digits(digits.take(i - start)),
            digits_value(digits.take(i - start)) == value,
        decreases chars@.len() - i,
    {
        let c: char = chars[i];
        let ghost done = i - start;
        proof {
            assert(digits[done] == c);
            assert(digits.take(done + 1).drop_last() =~= digits.take(done));
            assert(digits.take(done + 1).last() == c);
        }
        if c < '0' || c > '9' {
            assert(!is_digit(digits[done]));
            return None;
        }
        let d: u64 = (c as u32 - 48) as u64;
        if value > (u64::MAX - d) / 10 {
            proof {
                lemma_value_grows(digits, done + 1);
                assert(value * 10 + d > u64::MAX);
            }
            return None;
        }
        value = value * 10 + d;
        proof {
            assert forall|j: int| 0 <= j < digits.take(done + 1).len() implies is_digit(
                #[trigger] digits.take(done + 1)[j],
            ) by {
                if j < done {
                    assert(digits.take(done)[j] == digits.take(done + 1)[j]);
                }
            }
        }
        i = i + 1;
    }
    assert(digits.take(digits.len() as int) =~= digits);
    Some(value)
}

/// The number that a text stands for, if it fits in 64 bits.
pub fn parse_u64(text: &str) -> (value: Option<u64>)
    ensures
        value == (match number_in(text@) {
            Some(n) if n <= u64::MAX => Some(n as u64),
            _ => None,
        }),
{
    let chars = chars_of(text);
    if chars.len() > 0 && chars[0] == '+' {
        assert(chars@.skip(1) =~= chars@.drop_first());
        read_digits(&chars, 1)
    } else {
        assert(chars@.skip(0) =~= chars@);
        read_digits(&chars, 0)
    }
}

/// The integer that a text stands for, if it fits in 64 bits.
pub fn parse_i64(text: &str) -> (value: Option<i64>)
    ensures
        value == (match integer_in(text@) {
            Some(n) if i64::MIN <= n <= i64::MAX => Some(n as i64),
            _ => None,
        }),
{
    let chars = chars_of(text);
    if chars.len() > 0 && chars[0] == '-' {
        assert(chars@.skip(1) =~= chars@.drop_first());
        match read_digits(&chars, 1) {
            Some(v) => {
                if v <= 0x7fff_ffff_ffff_ffff {
                    Some(-(v as i64))
                } else if v == 0x8000_0000_0000_0000 {
                    Some(i64::MIN)
                } else {
                    None
                }
            },
            None => None,
        }
    } else {
        match parse_u64(text) {
            Some(v) => {
                if v <= 0x7fff_ffff_ffff_ffff {
                    Some(v as i64)
                } else {
                    None
                }
            },
            None => None,
        }
    }
}

/// Writes a number in decimal.
pub fn write_decimal(n: u64) -> (text: String)
    ensures
        text@ == decimal(n as nat),
    decreases n,
{
    if n < 10 {
        let mut text = String::new();
        text.push((48u8 + n as u8) as char);
        assert(text@ =~= seq![digit(n as nat)]);
        text
    } else {
        let mut text = write_decimal(n / 10);
        text.push((48u8 + (n % 10) as u8) as char);
        text
    }
}

/// Writes an integer in decimal, with a minus sign where it is negative.
pub fn write_signed(n: i64) -> (text: String)
    ensures
        text@ == signed_decimal(n as int),
{
    if n < 0 {
        let magnitude: u64 = if n == i64::MIN {
            0x8000_0000_0000_0000
        } else {
            (-n) as u64
        };
        let mut text = String::new();
        text.push('-');
        let digits = write_decimal(magnitude);
        text.append(digits.as_str());
        assert(text@ =~= seq!['-'] + decimal(magnitude as nat));
        text
    } else {
        write_decimal(n as u64)
    }
}

proof fn lemma_decimal_digits(n: nat)
    ensures
        all_digits(decimal(n)),
        decimal(n).len() > 0,
        digits_value(decimal(n)) == n,
    decreases n,
{
    reveal_with_fuel(digits_value, 2);
    if n < 10 {
        assert(decimal(n).drop_last() =~= Seq::<char>::empty());
        assert(decimal(n).last() == digit(n));
    } else {
        lemma_decimal_digits(n / 10);
        assert(decimal(n).drop_last() =~= decimal(n / 10));
        assert(decimal(n).last() == digit(n % 10));
        assert forall|i: int| 0 <= i < decimal(n).len() implies is_digit(
            #[trigger] decimal(n)[i],
        ) by {
            if i < decimal(n / 10).len() {
                assert(decimal(n / 10)[i] == decimal(n)[i]);
            }
        }
    }
}

/// A number written in decimal reads back as itself, whatever its sign.
pub proof fn written_numbers_read_back(n: int)
    ensures
        integer_in(signed_decimal(n)) == Some(n),
        n >= 0 ==> number_in(decimal(n as nat)) == Some(n as nat),
{
    if n < 0 {
        lemma_decimal_digits((-n) as nat);
        assert((seq!['-'] + decimal((-n) as nat)).drop_first() =~= decimal((-n) as nat));
    } else {
        lemma_decimal_digits(n as nat);
        assert(is_digit(decimal(n as nat)[0]));
    }
}

/// The pieces of `text` between the occurrences of `at`.
pub open spec fn split_at_char(text: Seq<char>, at: char) -> Seq<Seq<char>>
    decreases text.len(),
{
    if text.len() == 0 {
        seq![Seq::<char>::empty()]
    } else {
        let front = split_at_char(text.drop_last(), at);
        if text.last() == at {
            front.push(Seq::<char>::empty())
        } else {
            front.update(front.len() - 1, front.last().push(text.last()))
        }
    }
}

pub(crate) proof fn lemma_split_has_a_piece(text: Seq<char>, at: char)
    ensures
        split_at_char(text, at).len() > 0,
    decreases text.len(),
{
    if text.len() > 0 {
        lemma_split_has_a_piece(text.drop_last(), at);
    }
}

/// The views of some texts.
pub open spec fn texts(list: Seq<String>) -> Seq<Seq<char>> {
    list.map_values(|s: String| s@)
}

/// The pieces of `text` between the occurrences of `at`.
pub fn split(text: &str, at: char) -> (pieces: Vec<String>)
    ensures
        texts(pieces@) == split_at_char(text@, at),
{
    let chars = chars_of(text);
    let mut pieces: Vec<String> = Vec::new();
    let mut current = String::new();
    let mut i: usize = 0;
    assert(chars@.take(0) =~= Seq::<char>::empty());
    assert(texts(pieces@).push(current@) =~= split_at_char(chars@.take(0), at));
    while i < chars.len()
        invariant
            i <= chars@.len(),
            texts(pieces@).push(current@) == split_at_char(chars@.take(i as int), at),
        decreases chars@.len() - i,
    {
        let c: char = chars[i];
        let ghost so_far = chars@.take(i as int);
        let ghost next = chars@.take(i + 1);
        let ghost front = split_at_char(so_far, at);
        proof {
            assert(next.drop_last() =~= so_far);
            assert(next.last() == c);
            assert(front.last() == current@);
        }
        if c == at {
            let ghost before = pieces@;
            pieces.push(current);
            current = String::new();
            proof {
                assert(texts(pieces@) =~= front);
                assert(texts(pieces@).push(current@) =~= split_at_char(next, at));
            }
        } else {
            current.push(c);
            assert(texts(pieces@).push(current@) =~= split_at_char(next, at));
        }
        i = i + 1;
    }
    assert(chars@.take(chars@.len() as int) =~= chars@);
    let ghost before = pieces@;
    let ghost last = current@;
    pieces.push(current);
    assert(texts(pieces@) =~= texts(before).push(last));
    pieces
}

/// Two texts, one behind the other.
pub fn join2(a: &str, b: &str) -> (text: String)
    ensures
        text@ == a@ + b@,
{
    let mut text = String::new();
    text.append(a);
    text.append(b);
    assert(text@ =~= a@ + b@);
    text
}

/// Three texts, one behind the other.
pub fn join3(a: &str, b: &str, c: &str) -> (text: String)
    ensures
        text@ == a@ + b@ + c@,
{
    let mut text = join2(a, b);
    text.append(c);
    text
}

/// The text that may be there, as a plain value.
pub open spec fn text_in(text: Option<String>) -> Option<Seq<char>> {
    match text {
        Some(text) => Some(text@),
        None => None,
    }
}

/// The same text again, where there is one.
pub fn copy_text(text: &Option<String>) -> (again: Option<String>)
    ensures
        text_in(again) == text_in(*text),
{
    match text {
        Some(text) => Some(text.clone()),
        None => None,
    }
}

/// Characters of seven bits take one byte each.
pub proof fn lemma_ascii_bytes(text: Seq<char>)
    requires
        forall|i: int| 0 <= i < text.len() ==> (#[trigger] text[i]) as u32 <= 0x7f,
    ensures
        encode_utf8(text).len() == text.len(),
    decreases text.len(),
{
    reveal(encode_utf8);
    if text.len() > 0 {
        let rest = text.drop_first();
        assert forall|i: int| 0 <= i < rest.len() implies (#[trigger] rest[i]) as u32 <= 0x7f by {
            assert(rest[i] == text[i + 1]);
        }
        lemma_ascii_bytes(rest);
    }
}

/// How many bytes a text takes.
pub fn byte_len(text: &str) -> (n: usize)
    ensures
        n == encode_utf8(text@).len(),
{
    text.as_bytes().len()
}

/// The text behind an optional reference.
pub open spec fn text_at(text: Option<&str>) -> Option<Seq<char>> {
    match text {
        Some(text) => Some(text@),
        None => None,
    }
}

/// A reference to a text that may be there.
pub fn text_ref(text: &Option<String>) -> (reference: Option<&str>)
    ensures
        text_at(reference) == text_in(*text),
{
    match text {
        Some(text) => Some(text.as_str()),
        None => None,
    }
}

/// Pieces, with a character between every two.
pub open spec fn joined(pieces: Seq<Seq<char>>, at: char) -> Seq<char>
    decreases pieces.len(),
{
    if pieces.len() == 0 {
        Seq::empty()
    } else if pieces.len() == 1 {
        pieces[0]
    } else {
        joined(pieces.drop_last(), at).push(at) + pieces.last()
    }
}

/// Joining undoes splitting, and no piece holds the character that was split at.
pub proof fn joining_undoes_splitting(text: Seq<char>, at: char)
    ensures
        split_at_char(text, at).len() > 0,
        joined(split_at_char(text, at), at) == text,
        forall|j: int|
            0 <= j < split_at_char(text, at).len() ==> !(#[trigger] split_at_char(
                text,
                at,
            )[j]).contains(at),
    decreases text.len(),
{
    let pieces = split_at_char(text, at);
    if text.len() == 0 {
        assert(joined(pieces, at) =~= text);
        assert(!pieces[0].contains(at));
    } else {
        let before = text.drop_last();
        let front = split_at_char(before, at);
        joining_undoes_splitting(before, at);
        if text.last() == at {
            assert(pieces.drop_last() =~= front);
            assert(joined(pieces, at) =~= text);
            assert forall|j: int| 0 <= j < pieces.len() implies !(#[trigger] pieces[j]).contains(
                at,
            ) by {
                if j < front.len() {
                    assert(pieces[j] == front[j]);
                }
            }
        } else {
            assert(pieces.drop_last() =~= front.drop_last());
            assert(pieces.last() == front.last().push(text.last()));
            assert(before.push(text.last()) =~= text);
            if front.len() == 1 {
                assert(joined(front, at) == front[0]);
                assert(joined(pieces, at) == pieces[0]);
            } else {
                let head = joined(front.drop_last(), at).push(at);
                assert(joined(front, at) == head + front.last());
                assert(joined(pieces, at) == head + pieces.last());
                assert(head + pieces.last() =~= (head + front.last()).push(text.last()));
            }
            assert forall|j: int| 0 <= j < pieces.len() implies !(#[trigger] pieces[j]).contains(
                at,
            ) by {
                if j < front.len() - 1 {
                    assert(pieces[j] == front[j]);
                } else {
                    let last = front[front.len() - 1];
                    assert(!last.contains(at));
                    assert forall|i: int| 0 <= i < pieces[j].len() implies pieces[j][i] != at by {
                        if i < last.len() {
                            assert(pieces[j][i] == last[i]);
                        }
                    }
                }
            }
        }
    }
}

/// A text is one piece where the character is not in it, and what stands behind
/// the last such character is the last piece.
pub proof fn the_last_piece_stands_behind_the_last_cut(front: Seq<char>, at: char, back: Seq<char>)
    requires
        !back.contains(at),
    ensures
        split_at_char(back, at) == seq![back],
        split_at_char(front.push(at) + back, at) == split_at_char(front, at).push(back),
    decreases back.len(),
{
    let whole = front.push(at) + back;
    if back.len() == 0 {
        assert(back =~= Seq::<char>::empty());
        assert(split_at_char(back, at) =~= seq![back]);
        assert(whole.last() == at);
        assert(whole.drop_last() =~= front);
        assert(split_at_char(whole, at) =~= split_at_char(front, at).push(back));
    } else {
        let shorter = back.drop_last();
        assert(!shorter.contains(at)) by {
            assert forall|i: int| 0 <= i < shorter.len() implies shorter[i] != at by {
                assert(shorter[i] == back[i]);
            }
        }
        assert(back.last() != at) by {
            assert(back[back.len() - 1] == back.last());
        }
        the_last_piece_stands_behind_the_last_cut(front, at, shorter);
        assert(whole.drop_last() =~= front.push(at) + shorter);
        assert(whole.last() == back.last());
        assert(shorter.push(back.last()) =~= back);
        assert(split_at_char(back, at) =~= seq![back]);
        assert(split_at_char(whole, at) =~= split_at_char(front, at).push(back));
    }
}

/// Whether a text is nothing but white space.
pub open spec fn blank(text: Seq<char>) -> bool {
    forall|i: int| 0 <= i < text.len() ==> whitespace(#[trigger] text[i])
}

proof fn lemma_blank_start_goes(front: Seq<char>, rest: Seq<char>)
    requires
        blank(front),
        rest.len() > 0 ==> !whitespace(rest[0]),
    ensures
        trimmed_start(front + rest) == rest,
    decreases front.len(),
{
    let whole = front + rest;
    if front.len() == 0 {
        assert(whole =~= rest);
    } else {
        assert(whole[0] == front[0]);
        assert(whole.drop_first() =~= front.drop_first() + rest);
        assert(blank(front.drop_first())) by {
            assert forall|i: int| 0 <= i < front.drop_first().len() implies whitespace(
                #[trigger] front.drop_first()[i],
            ) by {
                assert(front.drop_first()[i] == front[i + 1]);
            }
        }
        lemma_blank_start_goes(front.drop_first(), rest);
    }
}

proof fn lemma_blank_end_goes(rest: Seq<char>, back: Seq<char>)
    requires
        blank(back),
        rest.len() > 0 ==> !whitespace(rest.last()),
    ensures
        trimmed_end(rest + back) == rest,
    decreases back.len(),
{
    let whole = rest + back;
    if back.len() == 0 {
        assert(whole =~= rest);
    } else {
        assert(whole.last() == back[back.len() - 1]);
        assert(whole.drop_last() =~= rest + back.drop_last());
        lemma_blank_end_goes(rest, back.drop_last());
    }
}

/// Trimming takes away the white space at both ends, all of it and nothing else.
pub proof fn trimming_takes_the_space_at_the_ends(
    front: Seq<char>,
    inner: Seq<char>,
    back: Seq<char>,
)
    requires
        blank(front),
        blank(back),
        inner.len() > 0 ==> !whitespace(inner[0]) && !whitespace(inner.last()),
    ensures
        trimmed(front + inner + back) == inner,
{
    if inner.len() == 0 {
        let all = front + back;
        assert(front + inner + back =~= all + Seq::<char>::empty());
        assert(blank(all));
        lemma_blank_start_goes(all, Seq::empty());
        assert(trimmed(front + inner + back) =~= inner);
    } else {
        assert(front + inner + back =~= front + (inner + back));
        assert((inner + back)[0] == inner[0]);
        lemma_blank_start_goes(front, inner + back);
        lemma_blank_end_goes(inner, back);
    }
}

/// Every such character at the end of a text goes, and no other character.
pub proof fn every_trailing_one_goes(front: Seq<char>, tail: Seq<char>, c: char)
    requires
        front.len() > 0 ==> front.last() != c,
        forall|i: int| 0 <= i < tail.len() ==> (#[trigger] tail[i]) == c,
    ensures
        without_trailing(front + tail, c) == front,
    decreases tail.len(),
{
    if tail.len() == 0 {
        assert(front + tail =~= front);
    } else {
        assert((front + tail).last() == tail[tail.len() - 1]);
        assert((front + tail).drop_last() =~= front + tail.drop_last());
        every_trailing_one_goes(front, tail.drop_last(), c);
    }
}

/// Every such character at the start of a text goes, and no other character.
pub proof fn every_leading_one_goes(head: Seq<char>, rest: Seq<char>, c: char)
    requires
        rest.len() > 0 ==> rest[0] != c,
        forall|i: int| 0 <= i < head.len() ==> (#[trigger] head[i]) == c,
    ensures
        without_leading(head + rest, c) == rest,
    decreases head.len(),
{
    if head.len() == 0 {
        assert(head + rest =~= rest);
    } else {
        assert((head + rest)[0] == head[0]);
        assert((head + rest).drop_first() =~= head.drop_first() + rest);
        assert forall|i: int| 0 <= i < head.drop_first().len() implies (
        #[trigger] head.drop_first()[i]) == c by {
            assert(head.drop_first()[i] == head[i + 1]);
        }
        every_leading_one_goes(head.drop_first(), rest, c);
    }
}

pub(crate) proof fn lemma_decimal_has_no_space(n: nat)
    ensures
        decimal(n).len() > 0,
        !whitespace(decimal(n)[0]),
        !whitespace(decimal(n).last()),
    decreases n,
{
    assert(is_digit(digit(n % 10)));
    if n >= 10 {
        lemma_decimal_has_no_space(n / 10);
        assert(decimal(n)[0] == decimal(n / 10)[0]);
    }
}

pub(crate) proof fn lemma_first_piece(first: Seq<char>, at: char, rest: Seq<char>)
    requires
        !first.contains(at),
    ensures
        split_at_char(first.push(at) + rest, at).len() > 1,
        split_at_char(first.push(at) + rest, at)[0] == first,
    decreases rest.len(),
{
    let whole = first.push(at) + rest;
    if rest.len() == 0 {
        the_last_piece_stands_behind_the_last_cut(Seq::empty(), at, first);
        assert(whole =~= first.push(at));
        assert(whole.drop_last() =~= first);
    } else {
        lemma_first_piece(first, at, rest.drop_last());
        assert(whole.drop_last() =~= first.push(at) + rest.drop_last());
    }
}

/// A text begins with another where that and something more make it up, and ends
/// with one likewise.
pub proof fn a_text_begins_and_ends_with_its_parts(front: Seq<char>, back: Seq<char>, text: Seq<char>)
    ensures
        has_prefix(front + back, front),
        has_suffix(front + back, back),
        has_prefix(text, front) ==> text == front + text.skip(front.len() as int),
        has_suffix(text, back) ==> text == text.take(text.len() - back.len()) + back,
        text.len() < front.len() ==> !has_prefix(text, front),
{
    assert((front + back).take(front.len() as int) =~= front);
    assert((front + back).skip((front + back).len() - back.len()) =~= back);
    if has_prefix(text, front) {
        assert(text =~= text.take(front.len() as int) + text.skip(front.len() as int));
    }
    if has_suffix(text, back) {
        let n = text.len() - back.len();
        assert(text =~= text.take(n) + text.skip(n));
    }
}

/// A number is made of digits, at least one, behind a sign at most; nothing else is
/// a number.
pub proof fn a_number_is_made_of_digits(text: Seq<char>, c: char)
    requires
        text.contains(c),
        !is_digit(c),
        c != '+' && c != '-',
    ensures
        number_in(text) is None,
        integer_in(text) is None,
        number_in(Seq::empty()) is None,
        integer_in(Seq::empty()) is None,
        number_in(seq!['+']) is None,
        integer_in(seq!['-']) is None,
        number_in(seq!['-', '1']) is None,
{
    let i = choose|i: int| 0 <= i < text.len() && text[i] == c;
    if text.len() > 0 && (text[0] == '+' || text[0] == '-') {
        assert(text.drop_first()[i - 1] == c);
    }
    assert(seq!['+'].drop_first() =~= Seq::<char>::empty());
    assert(seq!['-'].drop_first() =~= Seq::<char>::empty());
    assert(seq!['-', '1'][0] == '-');
    assert(!is_digit('-'));
}

/// A digit more makes a number ten times as large and adds the digit.
pub proof fn a_digit_more_counts(digits: Seq<char>, d: nat)
    requires
        d < 10,
        digits.len() > 0,
        all_digits(digits),
    ensures
        number_in(digits) is Some,
        number_in(digits.push(digit(d))) == Some(number_in(digits)->0 * 10 + d),
        number_in(seq!['+'] + digits) == number_in(digits),
        integer_in(seq!['-'] + digits) == Some(-(number_in(digits)->0 as int)),
{
    let more = digits.push(digit(d));
    assert(is_digit(digits[0]));
    assert(is_digit(digit(d)));
    assert(more.drop_last() =~= digits);
    assert(more[0] == digits[0]);
    assert((seq!['+'] + digits).drop_first() =~= digits);
    assert((seq!['-'] + digits).drop_first() =~= digits);
}

} // verus!
