//! Text as bytes: splitting a command line into words and reading decimal
//! numbers.
//!
//! A text is taken as its UTF-8 bytes. Splitting at the space byte is then the
//! same as splitting the text at the space character, and a decimal number has
//! only bytes below 128.

use vstd::prelude::*;

verus! {

/// The space byte, at which a command line is split.
pub const SPACE: u8 = 0x20;

/// The words of `line`: what stands between the separators, before the first
/// and after the last. There is one word more than there are separators, and
/// a word is empty where two separators meet or one stands at an end.
pub open spec fn split(line: Seq<u8>, separator: u8) -> Seq<Seq<u8>>
    decreases line.len(),
{
    if line.len() == 0 {
        seq![Seq::<u8>::empty()]
    } else {
        let words = split(line.drop_last(), separator);
        if line.last() == separator {
            words.push(Seq::<u8>::empty())
        } else {
            words.drop_last().push(words.last().push(line.last()))
        }
    }
}

/// The line that `words` make when a separator is put between each two.
pub open spec fn join(words: Seq<Seq<u8>>, separator: u8) -> Seq<u8>
    decreases words.len(),
{
    if words.len() == 0 {
        Seq::<u8>::empty()
    } else if words.len() == 1 {
        words[0]
    } else {
        join(words.drop_last(), separator).push(separator) + words.last()
    }
}

/// The views of the words of a list.
pub open spec fn word_views(words: &Vec<Vec<u8>>) -> Seq<Seq<u8>> {
    Seq::new(words@.len(), |i: int| words@[i]@)
}

/// Splitting gives at least one word, no word holds the separator, and the
/// words joined give the line again: the words are the one way to cut the
/// line at its separators.
pub proof fn split_is_exact(line: Seq<u8>, separator: u8)
    ensures
        split(line, separator).len() >= 1,
        forall|i: int, k: int|
            0 <= i < split(line, separator).len() && 0 <= k < split(line, separator)[i].len()
                ==> #[trigger] split(line, separator)[i][k] != separator,
        join(split(line, separator), separator) == line,
    decreases line.len(),
{
    if line.len() > 0 {
        let front = line.drop_last();
        let words = split(front, separator);
        split_is_exact(front, separator);
        let result = split(line, separator);
        if line.last() == separator {
            assert(result.drop_last() =~= words);
            assert(join(result, separator) =~= line);
        } else {
            let grown = words.last().push(line.last());
            assert forall|i: int, k: int|
                0 <= i < result.len() && 0 <= k < result[i].len() implies #[trigger] result[i][k]
                != separator by {
                if i < words.len() - 1 {
                    assert(result[i][k] == words[i][k]);
                } else if k < words.last().len() {
                    assert(result[i][k] == words[words.len() - 1][k]);
                }
            }
            if words.len() == 1 {
                assert(words[0] == front);
                assert(result[0] =~= line);
            } else {
                assert(result.drop_last() =~= words.drop_last());
                assert(join(result, separator) =~= join(words, separator).push(line.last()));
                assert(front.push(line.last()) =~= line);
            }
        }
    }
}

/// Cuts `line` into its words at each `separator`.
pub fn split_words(line: &[u8], separator: u8) -> (words: Vec<Vec<u8>>)
    ensures
        word_views(&words) == split(line@, separator),
{
    let mut words: Vec<Vec<u8>> = Vec::new();
    let mut current: Vec<u8> = Vec::new();
    let mut i: usize = 0;
    proof {
        assert(line@.take(0) =~= Seq::<u8>::empty());
        assert(word_views(&words).push(current@) =~= split(line@.take(0), separator));
    }
    while i < line.len()
        invariant
            i <= line@.len(),
            word_views(&words).push(current@) == split(line@.take(i as int), separator),
        decreases line@.len() - i,
    {
        let byte: u8 = line[i];
        proof {
            let next = line@.take(i + 1);
            assert(next.drop_last() =~= line@.take(i as int));
            assert(next.last() == byte);
        }
        let ghost before = word_views(&words);
        let ghost word = current@;
        if byte == separator {
            words.push(current);
            current = Vec::new();
            proof {
                assert(word_views(&words) =~= before.push(word));
            }
        } else {
            current.push(byte);
            proof {
                assert(before.push(word).drop_last() =~= before);
            }
        }
        i += 1;
    }
    let ghost before = word_views(&words);
    let ghost word = current@;
    words.push(current);
    proof {
        assert(line@.take(i as int) =~= line@);
        assert(word_views(&words) =~= before.push(word));
    }
    words
}

/// Whether two texts are the same, byte for byte.
pub fn same_text(a: &[u8], b: &[u8]) -> (same: bool)
    ensures
        same == (a@ == b@),
{
    if a.len() != b.len() {
        return false;
    }
    let mut i: usize = 0;
    while i < a.len()
        invariant
            i <= a@.len(),
            a@.len() == b@.len(),
            forall|k: int| 0 <= k < i ==> a@[k] == b@[k],
        decreases a@.len() - i,
    {
        if a[i] != b[i] {
            return false;
        }
        i += 1;
    }
    assert(a@ =~= b@);
    true
}

/// Whether a byte is one of the ten decimal digits.
pub open spec fn is_digit(byte: u8) -> bool {
    0x30 <= byte <= 0x39
}

/// Whether a text is made of decimal digits, and of at least one.
pub open spec fn is_number(text: Seq<u8>) -> bool {
    text.len() > 0 && forall|i: int| 0 <= i < text.len() ==> is_digit(#[trigger] text[i])
}

/// The number that a text of decimal digits spells. Zeros in front count for
/// nothing.
pub open spec fn decimal_value(digits: Seq<u8>) -> nat
    decreases digits.len(),
{
    if digits.len() == 0 {
        0
    } else {
        decimal_value(digits.drop_last()) * 10 + if is_digit(digits.last()) {
            (digits.last() - 0x30) as nat
        } else {
            0
        }
    }
}

/// Whether a text starts with the given sign.
pub open spec fn has_sign(text: Seq<u8>, sign: char) -> bool {
    text.len() > 0 && text[0] == sign as u8
}

/// What a text spells as an unsigned 64-bit number: decimal digits, which a
/// `+` may precede, and a value within the range. Anything else (an empty
/// text, a sign alone, a `-`, a blank, a digit too many) spells none.
pub open spec fn unsigned_of(text: Seq<u8>) -> Option<u64> {
    let digits = if has_sign(text, '+') {
        text.drop_first()
    } else {
        text
    };
    if is_number(digits) && decimal_value(digits) <= u64::MAX {
        Some(decimal_value(digits) as u64)
    } else {
        None
    }
}

/// What a text spells as a signed 16-bit number: decimal digits, which a `+`
/// or a `-` may precede, and a value within the range.
pub open spec fn signed_of(text: Seq<u8>) -> Option<i16> {
    let digits = if has_sign(text, '+') || has_sign(text, '-') {
        text.drop_first()
    } else {
        text
    };
    let value = if has_sign(text, '-') {
        -(decimal_value(digits) as int)
    } else {
        decimal_value(digits) as int
    };
    if is_number(digits) && -32768 <= value <= 32767 {
        Some(value as i16)
    } else {
        None
    }
}

/// A text spells at least what any of its beginnings spells.
pub proof fn decimal_value_grows(digits: Seq<u8>, n: int)
    requires
        0 <= n <= digits.len(),
    ensures
        decimal_value(digits.take(n)) <= decimal_value(digits),
    decreases digits.len(),
{
    if n == digits.len() {
        assert(digits.take(n) =~= digits);
    } else {
        decimal_value_grows(digits.drop_last(), n);
        assert(digits.drop_last().take(n) =~= digits.take(n));
    }
}

/// Reads the digits of `text` from `start` on, up to the bound `limit`.
/// `None` if there is no digit, if a byte is no digit, or if the value is
/// above the limit.
fn read_digits(text: &[u8], start: usize, limit: u64) -> (value: Option<u64>)
    requires
        start <= text@.len(),
        9 <= limit <= u64::MAX,
    ensures
        value == if is_number(text@.skip(start as int)) && decimal_value(text@.skip(start as int))
            <= limit {
            Some(decimal_value(text@.skip(start as int)) as u64)
        } else {
            None
        },
{
    let ghost digits = text@.skip(start as int);
    if start == text.len() {
        return None;
    }
    let mut value: u64 = 0;
    let mut i: usize = start;
    proof {
        assert(digits.take(0) =~= Seq::<u8>::empty());
    }
    while i < text.len()
        invariant
            start <= i <= text@.len(),
            digits == text@.skip(start as int),
            forall|k: int| 0 <= k < i - start ==> is_digit(#[trigger] digits[k]),
            value == decimal_value(digits.take(i - start)),
            value <= limit,
            9 <= limit,
        decreases text@.len() - i,
    {
        let byte: u8 = text[i];
        assert(digits[i - start] == byte);
        if byte < 0x30 || byte > 0x39 {
            return None;
        }
        let digit: u64 = (byte - 0x30) as u64;
        proof {
            let next = digits.take(i - start + 1);
            assert(next.drop_last() =~= digits.take(i - start));
            assert(next.last() == byte);
            decimal_value_grows(digits, i - start + 1);
        }
        if value > (limit - digit) / 10 {
            return None;
        }
        value = value * 10 + digit;
        i += 1;
    }
    proof {
        assert(digits.take(i - start) =~= digits);
    }
    Some(value)
}

/// Reads an unsigned 64-bit number.
pub fn parse_unsigned(text: &[u8]) -> (value: Option<u64>)
    ensures
        value == unsigned_of(text@),
{
    let start: usize = if text.len() > 0 && text[0] == '+' as u8 {
        1
    } else {
        0
    };
    proof {
        assert(text@.skip(0) =~= text@);
        assert(text@.skip(1) =~= text@.drop_first());
    }
    read_digits(text, start, u64::MAX)
}

/// Reads a signed 16-bit number.
pub fn parse_signed(text: &[u8]) -> (value: Option<i16>)
    ensures
        value == signed_of(text@),
{
    let negative: bool = text.len() > 0 && text[0] == '-' as u8;
    let start: usize = if text.len() > 0 && (text[0] == '+' as u8 || text[0] == '-' as u8) {
        1
    } else {
        0
    };
    proof {
        assert(text@.skip(0) =~= text@);
        assert(text@.skip(1) =~= text@.drop_first());
    }
    if negative {
        match read_digits(text, start, 32768) {
            Some(magnitude) => Some((-(magnitude as i32)) as i16),
            None => None,
        }
    } else {
        match read_digits(text, start, 32767) {
            Some(magnitude) => Some(magnitude as i16),
            None => None,
        }
    }
}

} // verus!
