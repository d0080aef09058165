//! Lines, numbers and names as they are spelled in the bytes of a message.

use vstd::prelude::*;

verus! {

/// Carriage return
pub const CR: u8 = 13;

/// Line feed
pub const LF: u8 = 10;

/// Space
pub const SP: u8 = 32;

/// Horizontal tab
pub const HTAB: u8 = 9;

/// Whether a line break, CR and then LF, stands at place `i` of `s`.
pub open spec fn crlf_at(s: Seq<u8>, i: int) -> bool {
    0 <= i && i + 1 < s.len() && s[i] == CR && s[i + 1] == LF
}

/// Whether the first line break of `s` stands at place `i`.
pub open spec fn first_crlf(s: Seq<u8>, i: int) -> bool {
    crlf_at(s, i) && forall|j: int| 0 <= j < i ==> !#[trigger] crlf_at(s, j)
}

/// Where the first line of `s` ends: the place of its first line break, if
/// it holds one.
pub open spec fn line_end(s: Seq<u8>) -> Option<int> {
    if exists|i: int| first_crlf(s, i) {
        Some(choose|i: int| first_crlf(s, i))
    } else {
        None
    }
}

/// The first line break of a row of bytes stands at one place only.
pub proof fn lemma_line_end_is(s: Seq<u8>, i: int)
    requires
        first_crlf(s, i),
    ensures
        line_end(s) == Some(i),
{
    let k = choose|k: int| first_crlf(s, k);
    assert(first_crlf(s, k));
    if k < i {
        assert(crlf_at(s, k));
    } else if i < k {
        assert(crlf_at(s, i));
    }
}

/// A row of bytes without a line break has no first line.
pub proof fn lemma_line_end_none(s: Seq<u8>)
    requires
        forall|j: int| 0 <= j ==> !#[trigger] crlf_at(s, j),
    ensures
        line_end(s) is None,
{
}

/// What `line_end` says: the place it gives is that of the first line break,
/// and it gives none only where there is no line break.
pub proof fn lemma_line_end_found(s: Seq<u8>)
    ensures
        line_end(s) matches Some(i) ==> first_crlf(s, i) && 0 <= i && i + 2 <= s.len(),
        line_end(s) is None ==> forall|j: int| !#[trigger] crlf_at(s, j),
{
    if line_end(s) is None {
        assert forall|j: int| !#[trigger] crlf_at(s, j) by {
            if crlf_at(s, j) {
                lemma_some_crlf_has_first(s, j);
            }
        }
    }
}

/// Where a line break stands, a first one stands at or before it.
proof fn lemma_some_crlf_has_first(s: Seq<u8>, j: int)
    requires
        crlf_at(s, j),
    ensures
        exists|i: int| first_crlf(s, i),
    decreases j,
{
    if exists|k: int| 0 <= k < j && crlf_at(s, k) {
        let k = choose|k: int| 0 <= k < j && crlf_at(s, k);
        lemma_some_crlf_has_first(s, k);
    } else {
        assert(first_crlf(s, j));
    }
}

/// Where the first line of `buf` ends, if it holds a whole line.
pub fn find_line(buf: &Vec<u8>) -> (end: Option<usize>)
    ensures
        match end {
            Some(i) => line_end(buf@) == Some(i as int) && i + 2 <= buf.len(),
            None => line_end(buf@) is None,
        },
{
    let n = buf.len();
    let mut i: usize = 0;
    while n - i >= 2
        invariant
            n == buf.len(),
            i <= n,
            forall|j: int| 0 <= j < i ==> !#[trigger] crlf_at(buf@, j),
        decreases n - i,
    {
        if buf[i] == CR && buf[i + 1] == LF {
            proof {
                lemma_line_end_is(buf@, i as int);
            }
            return Some(i);
        }
        i = i + 1;
    }
    proof {
        lemma_line_end_none(buf@);
    }
    None
}

} // verus!

verus! {

/// The bytes that spell a text of ASCII characters, one byte for each.
pub open spec fn ascii(text: Seq<char>) -> Seq<u8> {
    Seq::new(text.len(), |i: int| text[i] as u8)
}

/// The bytes that spell `text`.
pub(crate) fn ascii_bytes(text: &str) -> (bytes: &[u8])
    requires
        text.is_ascii(),
    ensures
        bytes@ == ascii(text@),
{
    broadcast use vstd::string::is_ascii_spec_bytes;

    text.as_bytes()
}

/// Whether a byte is a decimal digit.
pub open spec fn is_digit(b: u8) -> bool {
    48 <= b <= 57
}

/// Whether `s` is made of decimal digits only.
pub open spec fn all_digits(s: Seq<u8>) -> bool {
    forall|i: int| 0 <= i < s.len() ==> is_digit(#[trigger] s[i])
}

/// The number that the decimal digits `s` spell; 0 for none.
pub open spec fn decimal(s: Seq<u8>) -> nat
    decreases s.len(),
{
    if s.len() == 0 {
        0
    } else {
        decimal(s.drop_last()) * 10 + (s.last() - 48) as nat
    }
}

/// The number that `s` spells in decimal digits, where `s` is one digit or
/// more and nothing else, and the number is at most `limit`.
pub open spec fn parse_decimal(s: Seq<u8>, limit: nat) -> Option<nat> {
    if s.len() > 0 && all_digits(s) && decimal(s) <= limit {
        Some(decimal(s))
    } else {
        None
    }
}

/// What a hexadecimal digit counts, in either case.
pub open spec fn hex_digit(b: u8) -> Option<nat> {
    if 48 <= b <= 57 {
        Some((b - 48) as nat)
    } else if 97 <= b <= 102 {
        Some((b - 87) as nat)
    } else if 65 <= b <= 70 {
        Some((b - 55) as nat)
    } else {
        None
    }
}

/// Whether `s` is made of hexadecimal digits only.
pub open spec fn all_hex(s: Seq<u8>) -> bool {
    forall|i: int| 0 <= i < s.len() ==> hex_digit(#[trigger] s[i]) is Some
}

/// The number that the hexadecimal digits `s` spell; 0 for none.
pub open spec fn hexadecimal(s: Seq<u8>) -> nat
    decreases s.len(),
{
    if s.len() == 0 {
        0
    } else {
        hexadecimal(s.drop_last()) * 16 + hex_digit(s.last()).unwrap_or(0)
    }
}

/// The number that `s` spells in hexadecimal digits, where `s` is one digit
/// or more and nothing else, and the number is at most `limit`.
pub open spec fn parse_hexadecimal(s: Seq<u8>, limit: nat) -> Option<nat> {
    if s.len() > 0 && all_hex(s) && hexadecimal(s) <= limit {
        Some(hexadecimal(s))
    } else {
        None
    }
}

/// A number never gets smaller by more digits behind it.
pub proof fn lemma_decimal_grows(s: Seq<u8>, n: int)
    requires
        0 <= n <= s.len(),
        all_digits(s),
    ensures
        decimal(s.take(n)) <= decimal(s),
    decreases s.len() - n,
{
    if n < s.len() {
        lemma_decimal_grows(s, n + 1);
        assert(s.take(n + 1).drop_last() =~= s.take(n));
    } else {
        assert(s.take(n) =~= s);
    }
}

/// A number never gets smaller by more digits behind it.
pub proof fn lemma_hexadecimal_grows(s: Seq<u8>, n: int)
    requires
        0 <= n <= s.len(),
        all_hex(s),
    ensures
        hexadecimal(s.take(n)) <= hexadecimal(s),
    decreases s.len() - n,
{
    if n < s.len() {
        lemma_hexadecimal_grows(s, n + 1);
        assert(s.take(n + 1).drop_last() =~= s.take(n));
    } else {
        assert(s.take(n) =~= s);
    }
}

/// Read `s` as a decimal number of at most `limit`.
pub fn read_decimal(s: &[u8], limit: u64) -> (number: Option<u64>)
    ensures
        match number {
            Some(n) => parse_decimal(s@, limit as nat) == Some(n as nat),
            None => parse_decimal(s@, limit as nat) is None,
        },
{
    let n = s.len();
    if n == 0 {
        return None;
    }
    let mut value: u64 = 0;
    let mut i: usize = 0;
    while i < n
        invariant
            n == s.len(),
            i <= n,
            all_digits(s@.take(i as int)),
            value == decimal(s@.take(i as int)),
            value <= limit,
        decreases n - i,
    {
        let b = s[i];
        if b < 48 || b > 57 {
            assert(!is_digit(s@[i as int]));
            return None;
        }
        let digit = (b - 48) as u64;
        assert(s@.take(i + 1).drop_last() =~= s@.take(i as int));
        assert(all_digits(s@.take(i + 1))) by {
            assert forall|j: int| 0 <= j < i + 1 implies is_digit(#[trigger] s@.take(i + 1)[j]) by {
                if j < i {
                    assert(s@.take(i as int)[j] == s@[j]);
                }
            }
        }
        if digit > limit || value > (limit - digit) / 10 {
            proof {
                if all_digits(s@) {
                    lemma_decimal_grows(s@, i + 1);
                }
            }
            return None;
        }
        value = value * 10 + digit;
        i = i + 1;
    }
    assert(s@.take(n as int) =~= s@);
    Some(value)
}

/// Read `s` as a hexadecimal number of at most `limit`.
pub fn read_hexadecimal(s: &[u8], limit: usize) -> (number: Option<usize>)
    ensures
        match number {
            Some(n) => parse_hexadecimal(s@, limit as nat) == Some(n as nat),
            None => parse_hexadecimal(s@, limit as nat) is None,
        },
{
    let n = s.len();
    if n == 0 {
        return None;
    }
    let mut value: usize = 0;
    let mut i: usize = 0;
    while i < n
        invariant
            n == s.len(),
            i <= n,
            all_hex(s@.take(i as int)),
            value == hexadecimal(s@.take(i as int)),
            value <= limit,
        decreases n - i,
    {
        let b = s[i];
        let digit: usize = if 48 <= b && b <= 57 {
            (b - 48) as usize
        } else if 97 <= b && b <= 102 {
            (b - 87) as usize
        } else if 65 <= b && b <= 70 {
            (b - 55) as usize
        } else {
            assert(hex_digit(s@[i as int]) is None);
            return None;
        };
        assert(hex_digit(b) == Some(digit as nat));
        assert(s@.take(i + 1).drop_last() =~= s@.take(i as int));
        assert(all_hex(s@.take(i + 1))) by {
            assert forall|j: int| 0 <= j < i + 1 implies hex_digit(
                #[trigger] s@.take(i + 1)[j],
            ) is Some by {
                if j < i {
                    assert(s@.take(i as int)[j] == s@[j]);
                }
            }
        }
        if digit > limit || value > (limit - digit) / 16 {
            proof {
                if all_hex(s@) {
                    lemma_hexadecimal_grows(s@, i + 1);
                }
            }
            return None;
        }
        value = value * 16 + digit;
        i = i + 1;
    }
    assert(s@.take(n as int) =~= s@);
    Some(value)
}

/// A letter's lower case, and any other byte as it is.
pub open spec fn lower(b: u8) -> u8 {
    if 65 <= b <= 90 {
        (b + 32) as u8
    } else {
        b
    }
}

/// Whether two names are the same but for the case of their letters.
pub open spec fn same_name(a: Seq<u8>, b: Seq<u8>) -> bool {
    a.len() == b.len() && forall|i: int| 0 <= i < a.len() ==> lower(#[trigger] a[i]) == lower(b[i])
}

/// A letter's lower case, and any other byte as it is.
pub fn to_lower(b: u8) -> (l: u8)
    ensures
        l == lower(b),
{
    if 65 <= b && b <= 90 {
        b + 32
    } else {
        b
    }
}

/// Whether two names are the same but for the case of their letters.
pub fn is_name(a: &[u8], b: &[u8]) -> (same: bool)
    ensures
        same == same_name(a@, b@),
{
    let n = a.len();
    if n != b.len() {
        return false;
    }
    let mut i: usize = 0;
    while i < n
        invariant
            n == a.len(),
            n == b.len(),
            i <= n,
            forall|j: int| 0 <= j < i ==> lower(#[trigger] a@[j]) == lower(b@[j]),
        decreases n - i,
    {
        if to_lower(a[i]) != to_lower(b[i]) {
            return false;
        }
        i = i + 1;
    }
    true
}

/// Whether a byte is white space inside a line: a space or a tab.
pub open spec fn is_blank(b: u8) -> bool {
    b == SP || b == HTAB
}

/// `s` without the white space at its start.
pub open spec fn trim_start(s: Seq<u8>) -> Seq<u8>
    decreases s.len(),
{
    if s.len() > 0 && is_blank(s[0]) {
        trim_start(s.drop_first())
    } else {
        s
    }
}

/// `s` without the white space at its end.
pub open spec fn trim_end(s: Seq<u8>) -> Seq<u8>
    decreases s.len(),
{
    if s.len() > 0 && is_blank(s.last()) {
        trim_end(s.drop_last())
    } else {
        s
    }
}

/// `s` without the white space at its start and at its end.
pub open spec fn trim(s: Seq<u8>) -> Seq<u8> {
    trim_end(trim_start(s))
}

/// `s` without the white space at its start and at its end.
pub fn trimmed(s: &[u8]) -> (t: &[u8])
    ensures
        t@ == trim(s@),
{
    let n = s.len();
    let mut lo: usize = 0;
    assert(s@.subrange(0, n as int) =~= s@);
    while lo < n && (s[lo] == SP || s[lo] == HTAB)
        invariant
            n == s.len(),
            lo <= n,
            trim_start(s@) == trim_start(s@.subrange(lo as int, n as int)),
        decreases n - lo,
    {
        assert(s@.subrange(lo as int, n as int).drop_first() =~= s@.subrange(lo + 1, n as int));
        lo = lo + 1;
    }
    assert(trim_start(s@) == s@.subrange(lo as int, n as int));
    let mut hi: usize = n;
    while hi > lo && (s[hi - 1] == SP || s[hi - 1] == HTAB)
        invariant
            n == s.len(),
            lo <= hi <= n,
            trim(s@) == trim_end(s@.subrange(lo as int, hi as int)),
        decreases hi - lo,
    {
        assert(s@.subrange(lo as int, hi as int).drop_last() =~= s@.subrange(
            lo as int,
            hi - 1,
        ));
        hi = hi - 1;
    }
    vstd::slice::slice_subrange(s, lo, hi)
}

/// Whether `s` begins with `prefix`.
pub open spec fn starts_with(s: Seq<u8>, prefix: Seq<u8>) -> bool {
    prefix.len() <= s.len() && s.take(prefix.len() as int) == prefix
}

/// Whether `s` begins with `prefix`.
pub fn has_prefix(s: &[u8], prefix: &[u8]) -> (yes: bool)
    ensures
        yes == starts_with(s@, prefix@),
{
    let n = prefix.len();
    if s.len() < n {
        return false;
    }
    let mut i: usize = 0;
    while i < n
        invariant
            n == prefix.len(),
            n <= s.len(),
            i <= n,
            forall|j: int| 0 <= j < i ==> s@[j] == prefix@[j],
        decreases n - i,
    {
        if s[i] != prefix[i] {
            assert(s@.take(n as int)[i as int] != prefix@[i as int]);
            return false;
        }
        i = i + 1;
    }
    assert(s@.take(n as int) =~= prefix@);
    true
}

/// The place of the first `mark` in `s`, if it holds one.
pub open spec fn position(s: Seq<u8>, mark: u8) -> Option<int> {
    if exists|i: int| first_at(s, mark, i) {
        Some(choose|i: int| first_at(s, mark, i))
    } else {
        None
    }
}

/// Whether the first `mark` in `s` stands at place `i`.
pub open spec fn first_at(s: Seq<u8>, mark: u8, i: int) -> bool {
    0 <= i < s.len() && s[i] == mark && forall|j: int| 0 <= j < i ==> #[trigger] s[j] != mark
}

/// The place of the first `mark` in `s`, if it holds one.
pub fn find(s: &[u8], mark: u8) -> (place: Option<usize>)
    ensures
        match place {
            Some(i) => position(s@, mark) == Some(i as int) && first_at(s@, mark, i as int),
            None => position(s@, mark) is None && forall|j: int|
                0 <= j < s@.len() ==> #[trigger] s@[j] != mark,
        },
{
    let n = s.len();
    let mut i: usize = 0;
    while i < n
        invariant
            n == s.len(),
            i <= n,
            forall|j: int| 0 <= j < i ==> #[trigger] s@[j] != mark,
        decreases n - i,
    {
        if s[i] == mark {
            proof {
                let k = choose|k: int| first_at(s@, mark, k);
                assert(first_at(s@, mark, i as int));
                assert(first_at(s@, mark, k));
                if k < i {
                    assert(s@[k] != mark);
                } else if i < k {
                    assert(s@[i as int] != mark);
                }
            }
            return Some(i);
        }
        i = i + 1;
    }
    None
}

/// Add `bytes` at the end of `out`.
pub fn push_bytes(out: &mut Vec<u8>, bytes: &[u8])
    ensures
        final(out)@ == old(out)@ + bytes@,
{
    let n = bytes.len();
    let mut i: usize = 0;
    while i < n
        invariant
            n == bytes.len(),
            i <= n,
            out@ == old(out)@ + bytes@.take(i as int),
        decreases n - i,
    {
        out.push(bytes[i]);
        assert(bytes@.take(i + 1) =~= bytes@.take(i as int).push(bytes@[i as int]));
        i = i + 1;
    }
    assert(bytes@.take(n as int) =~= bytes@);
}

} // verus!
