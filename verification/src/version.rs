//! The version of the engine, as far as its first two numbers.

use crate::text::decimal_digits;
use crate::text::digit_char;
use crate::text::push_decimal;
use vstd::prelude::*;
use vstd::string::StringSliceAdditionalSpecFns;
use vstd::utf8::is_ascii_chars;
use vstd::utf8::is_ascii_chars_encode_utf8;

verus! {

/// A version: the number before the first dot and the number behind it.
#[derive(Clone, Copy, Debug, PartialEq, Eq, Structural)]
pub struct Version {
    /// The number before the first dot.
    pub major: usize,
    /// The number behind the first dot.
    pub minor: usize,
}

/// The first place at or after `from` that holds a dot, or the length of
/// `bytes` where there is none.
pub open spec fn dot_from(bytes: Seq<u8>, from: int) -> int
    decreases bytes.len() - from,
{
    if from >= bytes.len() || bytes[from] == 46 {
        from
    } else {
        dot_from(bytes, from + 1)
    }
}

/// All of `bytes` are decimal digits.
pub open spec fn all_digits(bytes: Seq<u8>) -> bool {
    forall|i: int| 0 <= i < bytes.len() ==> 48 <= #[trigger] bytes[i] <= 57
}

/// The number that the decimal digits `bytes` stand for.
pub open spec fn digits_value(bytes: Seq<u8>) -> nat
    decreases bytes.len(),
{
    if bytes.len() == 0 {
        0
    } else {
        (digits_value(bytes.drop_last()) * 10 + (bytes.last() - 48)) as nat
    }
}

/// `bytes` without a plus sign in front.
pub open spec fn unsigned_part(bytes: Seq<u8>) -> Seq<u8> {
    if bytes.len() > 0 && bytes[0] == 43 {
        bytes.subrange(1, bytes.len() as int)
    } else {
        bytes
    }
}

/// The number that `bytes` hold: decimal digits, at least one, with or without
/// a plus sign in front, for a number that fits the machine.
pub open spec fn number_of(bytes: Seq<u8>) -> Option<usize> {
    let digits = unsigned_part(bytes);
    if digits.len() > 0 && all_digits(digits) && digits_value(digits) <= usize::MAX {
        Some(digits_value(digits) as usize)
    } else {
        None
    }
}

/// The version that `bytes` hold: a number, a dot and a number. What follows a
/// second dot is not read.
pub open spec fn version_of(bytes: Seq<u8>) -> Option<Version> {
    let dot = dot_from(bytes, 0);
    if dot >= bytes.len() {
        None
    } else {
        let end = dot_from(bytes, dot + 1);
        match (number_of(bytes.subrange(0, dot)), number_of(bytes.subrange(dot + 1, end))) {
            (Some(major), Some(minor)) => Some(Version { major, minor }),
            _ => None,
        }
    }
}

/// The first place at or after `from` that holds no decimal digit, or the
/// length of `bytes` where there is none.
pub open spec fn digits_end(bytes: Seq<u8>, from: int) -> int
    decreases bytes.len() - from,
{
    if from >= bytes.len() || bytes[from] < 48 || bytes[from] > 57 {
        from
    } else {
        digits_end(bytes, from + 1)
    }
}

/// The version at the head of `bytes`: digits, a dot and digits, as many as
/// there are. What follows is not read.
pub open spec fn leading_version_of(bytes: Seq<u8>) -> Option<Version> {
    let dot = digits_end(bytes, 0);
    let end = digits_end(bytes, dot + 1);
    if 0 < dot < bytes.len() && bytes[dot] == 46 && dot + 1 < end {
        match (number_of(bytes.subrange(0, dot)), number_of(bytes.subrange(dot + 1, end))) {
            (Some(major), Some(minor)) => Some(Version { major, minor }),
            _ => None,
        }
    } else {
        None
    }
}

/// `digits_end` stays between its start and the end of the bytes.
pub proof fn lemma_digits_end_bounds(bytes: Seq<u8>, from: int)
    requires
        from <= bytes.len(),
    ensures
        from <= digits_end(bytes, from) <= bytes.len(),
    decreases bytes.len() - from,
{
    if from < bytes.len() && 48 <= bytes[from] <= 57 {
        lemma_digits_end_bounds(bytes, from + 1);
    }
}

/// The first place at or after `from` that holds no decimal digit.
fn find_digits_end(bytes: &[u8], from: usize) -> (at: usize)
    requires
        from <= bytes@.len(),
    ensures
        at == digits_end(bytes@, from as int),
        from <= at <= bytes@.len(),
{
    let len: usize = bytes.len();
    let mut at: usize = from;
    proof {
        lemma_digits_end_bounds(bytes@, from as int);
    }
    while at < len && 48 <= bytes[at] && bytes[at] <= 57
        invariant
            from <= at <= len,
            len == bytes@.len(),
            digits_end(bytes@, from as int) == digits_end(bytes@, at as int),
        decreases len - at,
    {
        at = at + 1;
    }
    at
}

/// `dot_from` stays between its start and the end of the bytes.
pub proof fn lemma_dot_from_bounds(bytes: Seq<u8>, from: int)
    requires
        from <= bytes.len(),
    ensures
        from <= dot_from(bytes, from) <= bytes.len(),
    decreases bytes.len() - from,
{
    if from < bytes.len() && bytes[from] != 46 {
        lemma_dot_from_bounds(bytes, from + 1);
    }
}

/// More digits do not make a smaller number.
proof fn lemma_digits_grow(bytes: Seq<u8>, k: int)
    requires
        0 <= k <= bytes.len(),
        all_digits(bytes),
    ensures
        digits_value(bytes.subrange(0, k)) <= digits_value(bytes),
    decreases bytes.len() - k,
{
    if k < bytes.len() {
        let longer = bytes.subrange(0, k + 1);
        assert(longer.drop_last() =~= bytes.subrange(0, k));
        assert(longer.last() == bytes[k]);
        lemma_digits_grow(bytes, k + 1);
    } else {
        assert(bytes.subrange(0, k) =~= bytes);
    }
}

/// The first place at or after `from` that holds a dot.
fn find_dot(bytes: &[u8], from: usize) -> (at: usize)
    requires
        from <= bytes@.len(),
    ensures
        at == dot_from(bytes@, from as int),
        from <= at <= bytes@.len(),
{
    let len: usize = bytes.len();
    let mut at: usize = from;
    proof {
        lemma_dot_from_bounds(bytes@, from as int);
    }
    while at < len && bytes[at] != 46
        invariant
            from <= at <= len,
            len == bytes@.len(),
            dot_from(bytes@, from as int) == dot_from(bytes@, at as int),
        decreases len - at,
    {
        at = at + 1;
    }
    at
}

/// The number that the bytes from `from` up to `end` hold.
fn parse_number(bytes: &[u8], from: usize, end: usize) -> (n: Option<usize>)
    requires
        from <= end <= bytes@.len(),
    ensures
        n == number_of(bytes@.subrange(from as int, end as int)),
{
    let ghost whole = bytes@.subrange(from as int, end as int);
    let mut at: usize = from;
    if at < end && bytes[at] == 43 {
        at = at + 1;
    }
    let ghost digits = unsigned_part(whole);
    proof {
        assert(whole.len() == end - from);
        if from < end {
            assert(whole[0] == bytes@[from as int]);
        }
        assert(digits =~= bytes@.subrange(at as int, end as int));
    }
    if at == end {
        proof {
            assert(digits.len() == 0);
        }
        return None;
    }
    let start: usize = at;
    let mut value: usize = 0;
    while at < end
        invariant
            start <= at <= end,
            end <= bytes@.len(),
            from <= end,
            whole == bytes@.subrange(from as int, end as int),
            digits == unsigned_part(whole),
            digits == bytes@.subrange(start as int, end as int),
            all_digits(digits.subrange(0, at - start)),
            value == digits_value(digits.subrange(0, at - start)),
        decreases end - at,
    {
        let byte: u8 = bytes[at];
        if byte < 48 || byte > 57 {
            proof {
                assert(digits[at - start] == byte);
                assert(!all_digits(digits));
            }
            return None;
        }
        let digit: usize = (byte - 48) as usize;
        proof {
            let longer = digits.subrange(0, at - start + 1);
            assert(longer.drop_last() =~= digits.subrange(0, at - start));
            assert(longer.last() == byte);
            assert forall|i: int| 0 <= i < longer.len() implies 48 <= #[trigger] longer[i]
                <= 57 by {
                if i < at - start {
                    assert(longer[i] == digits.subrange(0, at - start)[i]);
                }
            }
        }
        if value > (usize::MAX - digit) / 10 {
            proof {
                let longer = digits.subrange(0, at - start + 1);
                assert(digits_value(longer) == value * 10 + digit);
                assert(value * 10 + digit > usize::MAX);
                if all_digits(digits) {
                    lemma_digits_grow(digits, at - start + 1);
                }
                assert(number_of(whole) is None);
            }
            return None;
        }
        value = value * 10 + digit;
        at = at + 1;
    }
    proof {
        assert(digits.subrange(0, at - start) =~= digits);
    }
    Some(value)
}

/// The bytes of a text of ASCII characters.
pub open spec fn ascii_bytes(chars: Seq<char>) -> Seq<u8> {
    Seq::new(chars.len(), |i: int| chars[i] as u8)
}

/// The decimal digits of a number are digits, at least one, and stand for the
/// number.
pub proof fn lemma_decimal_digits(n: nat)
    ensures
        decimal_digits(n).len() > 0,
        is_ascii_chars(decimal_digits(n)),
        all_digits(ascii_bytes(decimal_digits(n))),
        digits_value(ascii_bytes(decimal_digits(n))) == n,
    decreases n,
{
    let last = digit_char(n % 10);
    assert(last as u8 == 48 + n % 10);
    assert('\0' <= last <= '\u{7f}');
    if n < 10 {
        let bytes = ascii_bytes(decimal_digits(n));
        assert(bytes.drop_last() =~= Seq::<u8>::empty());
        assert(digits_value(bytes.drop_last()) == 0);
    } else {
        lemma_decimal_digits(n / 10);
        let head = ascii_bytes(decimal_digits(n / 10));
        let bytes = ascii_bytes(decimal_digits(n));
        assert(bytes.drop_last() =~= head);
        assert(bytes.last() == 48 + n % 10);
        assert forall|i: int| 0 <= i < bytes.len() implies 48 <= #[trigger] bytes[i] <= 57 by {
            if i < head.len() {
                assert(bytes[i] == head[i]);
            }
        }
    }
}

/// In bytes of which the first `k` are digits, the first dot is not among
/// those.
proof fn lemma_dot_behind_digits(bytes: Seq<u8>, from: int, k: int)
    requires
        0 <= from <= k <= bytes.len(),
        forall|i: int| from <= i < k ==> 48 <= #[trigger] bytes[i] <= 57,
    ensures
        dot_from(bytes, from) == dot_from(bytes, k),
    decreases k - from,
{
    if from < k {
        lemma_dot_behind_digits(bytes, from + 1, k);
    }
}

/// The text of a version is read back as that version.
pub proof fn lemma_text_is_read_back(v: Version, text: &str)
    requires
        text@ == v.text(),
    ensures
        version_of(text.spec_bytes()) == Some(v),
{
    let major = decimal_digits(v.major as nat);
    let minor = decimal_digits(v.minor as nat);
    lemma_decimal_digits(v.major as nat);
    lemma_decimal_digits(v.minor as nat);
    let chars = v.text();
    assert('.' as u8 == 46);
    assert(is_ascii_chars(chars));
    is_ascii_chars_encode_utf8(chars);
    let bytes = text.spec_bytes();
    assert(bytes =~= ascii_bytes(chars));
    let first = ascii_bytes(major);
    let second = ascii_bytes(minor);
    let dot = first.len() as int;
    assert(bytes =~= first + seq![46u8] + second);
    lemma_dot_behind_digits(bytes, 0, dot);
    lemma_dot_behind_digits(bytes, dot + 1, bytes.len() as int);
    assert(bytes.subrange(0, dot) =~= first);
    assert(bytes.subrange(dot + 1, bytes.len() as int) =~= second);
    assert(unsigned_part(first) == first);
    assert(unsigned_part(second) == second);
}

impl Version {
    /// Reads a version from text such as `8.20`.
    pub fn parse(version_str: &str) -> (version: Option<Version>)
        ensures
            version == version_of(version_str.spec_bytes()),
    {
        let bytes: &[u8] = version_str.as_bytes();
        let len: usize = bytes.len();
        let dot: usize = find_dot(bytes, 0);
        if dot >= len {
            return None;
        }
        let end: usize = find_dot(bytes, dot + 1);
        let major: Option<usize> = parse_number(bytes, 0, dot);
        let minor: Option<usize> = parse_number(bytes, dot + 1, end);
        match (major, minor) {
            (Some(major), Some(minor)) => Some(Version { major, minor }),
            _ => None,
        }
    }

    /// Reads the version at the head of the text that the engine gives of
    /// itself, such as `8.20 2011-10-21`.
    pub fn leading(text: &str) -> (version: Option<Version>)
        ensures
            version == leading_version_of(text.spec_bytes()),
    {
        let bytes: &[u8] = text.as_bytes();
        let len: usize = bytes.len();
        let dot: usize = find_digits_end(bytes, 0);
        if dot == 0 || dot >= len || bytes[dot] != 46 {
            return None;
        }
        let end: usize = find_digits_end(bytes, dot + 1);
        if end <= dot + 1 {
            return None;
        }
        let major: Option<usize> = parse_number(bytes, 0, dot);
        let minor: Option<usize> = parse_number(bytes, dot + 1, end);
        match (major, minor) {
            (Some(major), Some(minor)) => Some(Version { major, minor }),
            _ => None,
        }
    }

    /// The oldest version of the engine that this crate works with.
    pub fn minimum() -> (version: Version)
        ensures
            version == (Version { major: 8, minor: 20 }),
    {
        Version { major: 8, minor: 20 }
    }

    /// Whether this crate works with an engine of this version: with every
    /// version that does not come before the oldest one.
    pub fn is_supported(&self) -> (supported: bool)
        ensures
            supported == !self.before(&Version { major: 8, minor: 20 }),
    {
        !self.lt(&Version::minimum())
    }

    /// The text of the version: its two numbers with a dot between them.
    pub open spec fn text(&self) -> Seq<char> {
        decimal_digits(self.major as nat) + seq!['.'] + decimal_digits(self.minor as nat)
    }

    /// The version as text.
    pub fn to_str(&self) -> (text: String)
        ensures
            text@ == self.text(),
    {
        let mut text: String = String::new();
        push_decimal(&mut text, self.major);
        text.push('.');
        push_decimal(&mut text, self.minor);
        proof {
            assert(text@ =~= self.text());
        }
        text
    }

    /// This version comes before `other`.
    pub open spec fn before(&self, other: &Version) -> bool {
        self.major < other.major || (self.major == other.major && self.minor < other.minor)
    }

    /// Whether this version comes before `other`: by the first number, and by
    /// the second where the first numbers are equal.
    pub fn lt(&self, other: &Version) -> (less: bool)
        ensures
            less == self.before(other),
    {
        self.major < other.major || (self.major == other.major && self.minor < other.minor)
    }
}

} // verus!
