//! Small text helpers.

use vstd::prelude::*;
use vstd::string::*;

verus! {

/// Whether `needle` stands in `text` at position `at`.
pub open spec fn stands_at(text: Seq<char>, needle: Seq<char>, at: int) -> bool {
    &&& 0 <= at
    &&& at + needle.len() <= text.len()
    &&& forall|k: int| 0 <= k < needle.len() ==> text[at + k] == #[trigger] needle[k]
}

/// Whether `needle` stands anywhere in `text`.
pub open spec fn mentions(text: Seq<char>, needle: Seq<char>) -> bool {
    exists|at: int| stands_at(text, needle, at)
}

/// Checks whether `needle` stands anywhere in `text`.
pub fn contains_text(text: &str, needle: &str) -> (found: bool)
    ensures
        found == mentions(text@, needle@),
{
    let length: usize = text.unicode_len();
    let wanted: usize = needle.unicode_len();
    if wanted > length {
        assert forall|at: int| !stands_at(text@, needle@, at) by {}
        return false;
    }
    let mut at: usize = 0;
    while at <= length - wanted
        invariant
            length == text@.len(),
            wanted == needle@.len(),
            wanted <= length,
            at <= length - wanted + 1,
            forall|a: int| 0 <= a < at ==> !stands_at(text@, needle@, a),
        decreases length - wanted + 1 - at,
    {
        let mut k: usize = 0;
        while k < wanted && text.get_char(at + k) == needle.get_char(k)
            invariant
                length == text@.len(),
                wanted == needle@.len(),
                at + wanted <= length,
                k <= wanted,
                forall|j: int| 0 <= j < k ==> text@[at + j] == #[trigger] needle@[j],
            decreases wanted - k,
        {
            k = k + 1;
        }
        if k == wanted {
            assert(stands_at(text@, needle@, at as int));
            return true;
        }
        assert(text@[at + k] != needle@[k as int]);
        if at == length - wanted {
            assert forall|a: int| !stands_at(text@, needle@, a) by {}
            return false;
        }
        at = at + 1;
    }
    false
}

/// Checks whether a text starts with a prefix.
pub fn starts_with(text: &str, prefix: &str) -> (starts: bool)
    ensures
        starts == stands_at(text@, prefix@, 0),
{
    let wanted: usize = prefix.unicode_len();
    if wanted > text.unicode_len() {
        return false;
    }
    for k in 0..wanted
        invariant
            wanted == prefix@.len(),
            wanted <= text@.len(),
            forall|j: int| 0 <= j < k ==> text@[0 + j] == #[trigger] prefix@[j],
    {
        if text.get_char(k) != prefix.get_char(k) {
            assert(text@[0 + k] != prefix@[k as int]);
            return false;
        }
    }
    true
}

/// A letter in upper case, where it is one of the basic alphabet.
pub open spec fn upper(c: char) -> char {
    if 'a' <= c <= 'z' {
        (c as u32 - 32) as char
    } else {
        c
    }
}

/// Whether a text ends in a suffix once its letters are in upper case.
pub open spec fn ends_upper(text: Seq<char>, suffix: Seq<char>) -> bool {
    &&& suffix.len() <= text.len()
    &&& forall|k: int|
        0 <= k < suffix.len() ==> upper(text[text.len() - suffix.len() + k]) == #[trigger] suffix[k]
}

/// Checks whether a text ends in a suffix once its letters are in upper case.
pub fn ends_with_upper(text: &str, suffix: &str) -> (ends: bool)
    ensures
        ends == ends_upper(text@, suffix@),
{
    let length: usize = text.unicode_len();
    let wanted: usize = suffix.unicode_len();
    if wanted > length {
        return false;
    }
    for k in 0..wanted
        invariant
            length == text@.len(),
            wanted == suffix@.len(),
            wanted <= length,
            forall|j: int| 0 <= j < k ==> upper(text@[length - wanted + j]) == #[trigger] suffix@[j],
    {
        let c: char = text.get_char(length - wanted + k);
        let raised: char = if 'a' <= c && c <= 'z' {
            (c as u8 - 32) as char
        } else {
            c
        };
        if raised != suffix.get_char(k) {
            assert(upper(text@[length - wanted + k]) != suffix@[k as int]);
            return false;
        }
    }
    true
}

/// The character of a decimal or hexadecimal digit.
pub open spec fn digit_char(d: int) -> char {
    (if d < 10 {
        0x30 + d
    } else {
        0x57 + d
    }) as char
}

/// A number in decimal.
pub open spec fn decimal(n: nat) -> Seq<char>
    decreases n,
{
    if n < 10 {
        seq![digit_char(n as int)]
    } else {
        decimal(n / 10).push(digit_char((n % 10) as int))
    }
}

/// A 16-bit number as `0x` and four hexadecimal digits.
pub open spec fn hex4(n: u16) -> Seq<char> {
    seq![
        '0',
        'x',
        digit_char(n as int / 4096),
        digit_char(n as int / 256 % 16),
        digit_char(n as int / 16 % 16),
        digit_char(n as int % 16),
    ]
}

/// The text of one digit.
pub(crate) fn digit_text(d: u64) -> (text: &'static str)
    requires
        d < 16,
    ensures
        text@ == seq![digit_char(d as int)],
{
    proof {
        reveal_strlit("0");
        reveal_strlit("1");
        reveal_strlit("2");
        reveal_strlit("3");
        reveal_strlit("4");
        reveal_strlit("5");
        reveal_strlit("6");
        reveal_strlit("7");
        reveal_strlit("8");
        reveal_strlit("9");
        reveal_strlit("a");
        reveal_strlit("b");
        reveal_strlit("c");
        reveal_strlit("d");
        reveal_strlit("e");
        reveal_strlit("f");
    }
    let text: &'static str = match d {
        0 => "0",
        1 => "1",
        2 => "2",
        3 => "3",
        4 => "4",
        5 => "5",
        6 => "6",
        7 => "7",
        8 => "8",
        9 => "9",
        10 => "a",
        11 => "b",
        12 => "c",
        13 => "d",
        14 => "e",
        _ => "f",
    };
    assert(text@ =~= seq![digit_char(d as int)]);
    text
}

/// Adds a number in decimal to a text.
pub(crate) fn append_decimal(text: &mut String, n: u64)
    ensures
        final(text)@ == old(text)@ + decimal(n as nat),
    decreases n,
{
    let ghost before = text@;
    if n >= 10 {
        append_decimal(text, n / 10);
    }
    text.append(digit_text(n % 10));
    assert(text@ =~= before + decimal(n as nat));
}

/// Adds a 16-bit number in hexadecimal to a text.
pub(crate) fn append_hex4(text: &mut String, n: u16)
    ensures
        final(text)@ == old(text)@ + hex4(n),
{
    let ghost before = text@;
    proof {
        reveal_strlit("0x");
    }
    text.append("0x");
    text.append(digit_text(n as u64 / 4096));
    text.append(digit_text(n as u64 / 256 % 16));
    text.append(digit_text(n as u64 / 16 % 16));
    text.append(digit_text(n as u64 % 16));
    assert(text@ =~= before + hex4(n));
}

/// A text that starts with `start`.
pub(crate) fn text_from(start: &str) -> (text: String)
    ensures
        text@ == start@,
{
    let mut text: String = String::new();
    text.append(start);
    assert(text@ =~= start@);
    text
}

/// Whether two texts are the same.
pub(crate) fn same_text(a: &str, b: &str) -> (same: bool)
    ensures
        same == (a@ == b@),
{
    let length: usize = a.unicode_len();
    if length != b.unicode_len() {
        return false;
    }
    let mut i: usize = 0;
    while i < length
        invariant
            i <= length,
            length == a@.len(),
            length == b@.len(),
            forall|j: int| 0 <= j < i ==> a@[j] == b@[j],
        decreases length - i,
    {
        if a.get_char(i) != b.get_char(i) {
            return false;
        }
        i = i + 1;
    }
    assert(a@ =~= b@);
    true
}

/// Two texts joined.
pub(crate) fn join2(a: &str, b: &str) -> (text: String)
    ensures
        text@ == a@ + b@,
{
    let mut text: String = text_from(a);
    text.append(b);
    text
}

/// Three texts joined.
pub(crate) fn join3(a: &str, b: &str, c: &str) -> (text: String)
    ensures
        text@ == a@ + b@ + c@,
{
    let mut text: String = join2(a, b);
    text.append(c);
    text
}

/// Four texts joined.
pub(crate) fn join4(a: &str, b: &str, c: &str, d: &str) -> (text: String)
    ensures
        text@ == a@ + b@ + c@ + d@,
{
    let mut text: String = join3(a, b, c);
    text.append(d);
    text
}

/// Five texts joined.
pub(crate) fn join5(a: &str, b: &str, c: &str, d: &str, e: &str) -> (text: String)
    ensures
        text@ == a@ + b@ + c@ + d@ + e@,
{
    let mut text: String = join4(a, b, c, d);
    text.append(e);
    text
}

/// A number in decimal.
pub(crate) fn number(n: u64) -> (text: String)
    ensures
        text@ == decimal(n as nat),
{
    let mut text: String = String::new();
    append_decimal(&mut text, n);
    assert(text@ =~= decimal(n as nat));
    text
}

/// A whole number in decimal, with a sign where it is negative.
pub open spec fn signed(n: int) -> Seq<char> {
    if n < 0 {
        "-"@ + decimal((-n) as nat)
    } else {
        decimal(n as nat)
    }
}

/// Writes a whole number in decimal.
pub(crate) fn signed_number(n: i32) -> (text: String)
    ensures
        text@ == signed(n as int),
{
    if n < 0 {
        let wide: i64 = n as i64;
        let digits: String = number((-wide) as u64);
        join2("-", digits.as_str())
    } else {
        number(n as u64)
    }
}

/// A text mentions a word exactly if some stretch of it is that word.
pub proof fn law_mentioned_words_are_there(text: Seq<char>, word: Seq<char>, at: int)
    ensures
        0 <= at && at + word.len() <= text.len() && text.subrange(at, at + word.len()) == word
            ==> mentions(text, word),
        mentions(text, word) ==> exists|k: int|
            0 <= k && k + word.len() <= text.len() && #[trigger] text.subrange(
                k,
                k + word.len(),
            ) == word,
{
    if 0 <= at && at + word.len() <= text.len() && text.subrange(at, at + word.len()) == word {
        assert forall|k: int| 0 <= k < word.len() implies text[at + k] == #[trigger] word[k] by {
            assert(text.subrange(at, at + word.len())[k] == text[at + k]);
        }
        assert(stands_at(text, word, at));
    }
    if mentions(text, word) {
        let k = choose|k: int| stands_at(text, word, k);
        assert(text.subrange(k, k + word.len()) =~= word);
    }
}

/// The number that decimal digits stand for, the first counting most.
pub open spec fn value_of(digits: Seq<char>) -> int
    decreases digits.len(),
{
    if digits.len() == 0 {
        0
    } else {
        10 * value_of(digits.drop_last()) + (digits.last() as int - '0' as int)
    }
}

/// A number written in decimal is read back as itself. It has digits only, and
/// no more of them than it needs.
pub proof fn law_decimals_read_back(n: nat)
    ensures
        value_of(decimal(n)) == n,
        decimal(n).len() > 0,
        decimal(n)[0] == '0' ==> n == 0,
        n < 10 ==> decimal(n).len() == 1,
        forall|i: int| 0 <= i < decimal(n).len() ==> '0' <= #[trigger] decimal(n)[i] <= '9',
    decreases n,
{
    let text = decimal(n);
    if n < 10 {
        assert(text.drop_last() =~= Seq::<char>::empty());
        assert(text.last() == digit_char(n as int));
        assert(value_of(text.drop_last()) == 0);
    } else {
        law_decimals_read_back(n / 10);
        let front = decimal(n / 10);
        assert(text.drop_last() =~= front);
        assert(text.last() == digit_char((n % 10) as int));
        assert(text[0] == front[0]);
        assert forall|i: int| 0 <= i < text.len() implies '0' <= #[trigger] text[i] <= '9' by {
            if i < front.len() {
                assert(text[i] == front[i]);
            }
        }
    }
}

/// A whole number is read back as itself: a sign stands before the digits
/// exactly if it is negative.
pub proof fn law_signs_read_back(n: int)
    ensures
        n >= 0 ==> signed(n)[0] != '-' && value_of(signed(n)) == n,
        n < 0 ==> signed(n)[0] == '-' && value_of(signed(n).subrange(1, signed(n).len() as int))
            == -n,
{
    reveal_strlit("-");
    if n < 0 {
        law_decimals_read_back((-n) as nat);
        assert(signed(n).subrange(1, signed(n).len() as int) =~= decimal((-n) as nat));
    } else {
        law_decimals_read_back(n as nat);
        assert('0' <= decimal(n as nat)[0]);
    }
}

} // verus!
