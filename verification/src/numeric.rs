//! Parsing of the numeric identifier fields carried by the explorer API.
//!
//! Block numbers and log indices arrive as strings holding either a plain
//! decimal number or a hexadecimal number behind a `0x` / `0X` prefix. The
//! parser below is verified against the recursive value functions of this
//! module: it returns `Some(v)` exactly when the string is a well-formed
//! encoding whose value fits in a `u64`.

use vstd::prelude::*;

verus! {

pub open spec fn is_dec_digit(c: char) -> bool {
    '0' <= c && c <= '9'
}

pub open spec fn dec_digit_value(c: char) -> int {
    c as int - '0' as int
}

pub open spec fn is_hex_digit(c: char) -> bool {
    is_dec_digit(c) || ('a' <= c && c <= 'f') || ('A' <= c && c <= 'F')
}

pub open spec fn hex_digit_value(c: char) -> int {
    if is_dec_digit(c) {
        dec_digit_value(c)
    } else if 'a' <= c && c <= 'f' {
        10 + c as int - 'a' as int
    } else {
        10 + c as int - 'A' as int
    }
}

pub open spec fn all_dec_digits(s: Seq<char>) -> bool {
    forall|i: int| 0 <= i < s.len() ==> is_dec_digit(#[trigger] s[i])
}

pub open spec fn all_hex_digits(s: Seq<char>) -> bool {
    forall|i: int| 0 <= i < s.len() ==> is_hex_digit(#[trigger] s[i])
}

/// Value of a decimal digit string, most significant digit first.
pub open spec fn dec_value(s: Seq<char>) -> int
    decreases s.len(),
{
    if s.len() == 0 {
        0
    } else {
        dec_value(s.drop_last()) * 10 + dec_digit_value(s.last())
    }
}

/// Value of a hexadecimal digit string, most significant digit first.
pub open spec fn hex_value(s: Seq<char>) -> int
    decreases s.len(),
{
    if s.len() == 0 {
        0
    } else {
        hex_value(s.drop_last()) * 16 + hex_digit_value(s.last())
    }
}

/// The numeric reading of an identifier string: a non-empty run of decimal
/// digits, or `0x`/`0X` followed by a non-empty run of hexadecimal digits.
pub open spec fn numeric_value(s: Seq<char>) -> Option<int> {
    if s.len() >= 2 && s[0] == '0' && (s[1] == 'x' || s[1] == 'X') {
        let digits = s.subrange(2, s.len() as int);
        if digits.len() > 0 && all_hex_digits(digits) {
            Some(hex_value(digits))
        } else {
            None
        }
    } else {
        if s.len() > 0 && all_dec_digits(s) {
            Some(dec_value(s))
        } else {
            None
        }
    }
}

/// The numeric reading restricted to values representable as a `u64`.
pub open spec fn numeric_value_u64(s: Seq<char>) -> Option<int> {
    match numeric_value(s) {
        Some(v) => if v <= u64::MAX { Some(v) } else { None },
        None => None,
    }
}

proof fn lemma_dec_value_nonneg(s: Seq<char>)
    requires
        all_dec_digits(s),
    ensures
        dec_value(s) >= 0,
    decreases s.len(),
{
    if s.len() > 0 {
        assert(all_dec_digits(s.drop_last())) by {
            assert(forall|i: int| 0 <= i < s.len() - 1 ==> s.drop_last()[i] == #[trigger] s[i]);
        }
        lemma_dec_value_nonneg(s.drop_last());
    }
}

proof fn lemma_hex_value_nonneg(s: Seq<char>)
    requires
        all_hex_digits(s),
    ensures
        hex_value(s) >= 0,
    decreases s.len(),
{
    if s.len() > 0 {
        assert(all_hex_digits(s.drop_last())) by {
            assert(forall|i: int| 0 <= i < s.len() - 1 ==> s.drop_last()[i] == #[trigger] s[i]);
        }
        lemma_hex_value_nonneg(s.drop_last());
    }
}

/// Extending a decimal digit string never decreases its value.
proof fn lemma_dec_value_prefix_le(s: Seq<char>, i: int)
    requires
        all_dec_digits(s),
        0 <= i <= s.len(),
    ensures
        dec_value(s.subrange(0, i)) <= dec_value(s),
    decreases s.len() - i,
{
    if i < s.len() {
        let t = s.subrange(0, i + 1);
        assert(t.drop_last() =~= s.subrange(0, i));
        assert(all_dec_digits(t)) by {
            assert(forall|j: int| 0 <= j < t.len() ==> t[j] == #[trigger] s[j]);
        }
        assert(all_dec_digits(t.drop_last())) by {
            assert(forall|j: int| 0 <= j < t.len() - 1 ==> t.drop_last()[j] == #[trigger] t[j]);
        }
        lemma_dec_value_nonneg(t.drop_last());
        assert(dec_value(t) == dec_value(t.drop_last()) * 10 + dec_digit_value(t.last()));
        assert(dec_value(t.drop_last()) <= dec_value(t.drop_last()) * 10) by {
            assert(dec_value(t.drop_last()) >= 0);
        }
        assert(dec_digit_value(t.last()) >= 0);
        lemma_dec_value_prefix_le(s, i + 1);
    } else {
        assert(s.subrange(0, i) =~= s);
    }
}

/// Extending a hexadecimal digit string never decreases its value.
proof fn lemma_hex_value_prefix_le(s: Seq<char>, i: int)
    requires
        all_hex_digits(s),
        0 <= i <= s.len(),
    ensures
        hex_value(s.subrange(0, i)) <= hex_value(s),
    decreases s.len() - i,
{
    if i < s.len() {
        let t = s.subrange(0, i + 1);
        assert(t.drop_last() =~= s.subrange(0, i));
        assert(all_hex_digits(t)) by {
            assert(forall|j: int| 0 <= j < t.len() ==> t[j] == #[trigger] s[j]);
        }
        assert(all_hex_digits(t.drop_last())) by {
            assert(forall|j: int| 0 <= j < t.len() - 1 ==> t.drop_last()[j] == #[trigger] t[j]);
        }
        lemma_hex_value_nonneg(t.drop_last());
        assert(hex_value(t) == hex_value(t.drop_last()) * 16 + hex_digit_value(t.last()));
        assert(hex_value(t.drop_last()) <= hex_value(t.drop_last()) * 16) by {
            assert(hex_value(t.drop_last()) >= 0);
        }
        assert(hex_digit_value(t.last()) >= 0);
        lemma_hex_value_prefix_le(s, i + 1);
    } else {
        assert(s.subrange(0, i) =~= s);
    }
}

/// Classifies one character as a decimal digit and yields its value.
fn dec_digit_of(c: char) -> (r: Option<u64>)
    ensures
        r is Some <==> is_dec_digit(c),
        r is Some ==> r->0 == dec_digit_value(c) && r->0 <= 9,
{
    if '0' <= c && c <= '9' {
        Some(c as u64 - '0' as u64)
    } else {
        None
    }
}

/// Classifies one character as a hexadecimal digit and yields its value.
fn hex_digit_of(c: char) -> (r: Option<u64>)
    ensures
        r is Some <==> is_hex_digit(c),
        r is Some ==> r->0 == hex_digit_value(c) && r->0 <= 15,
{
    if '0' <= c && c <= '9' {
        Some(c as u64 - '0' as u64)
    } else if 'a' <= c && c <= 'f' {
        Some(10 + (c as u64 - 'a' as u64))
    } else if 'A' <= c && c <= 'F' {
        Some(10 + (c as u64 - 'A' as u64))
    } else {
        None
    }
}

/// Parses the decimal digit run `s@.subrange(from, s@.len())`.
fn parse_dec_digits(s: &str, from: usize, len: usize) -> (r: Option<u64>)
    requires
        len == s@.len(),
        from <= len,
    ensures
        ({
            let digits = s@.subrange(from as int, s@.len() as int);
            &&& (r is Some <==> digits.len() > 0 && all_dec_digits(digits) && dec_value(digits)
                <= u64::MAX)
            &&& (r is Some ==> r->0 == dec_value(digits))
        }),
{
    let ghost digits = s@.subrange(from as int, s@.len() as int);
    if from == len {
        return None;
    }
    let mut acc: u64 = 0;
    let mut i: usize = from;
    while i < len
        invariant
            from <= i <= len,
            len == s@.len(),
            digits == s@.subrange(from as int, s@.len() as int),
            all_dec_digits(s@.subrange(from as int, i as int)),
            acc == dec_value(s@.subrange(from as int, i as int)),
        decreases len - i,
    {
        let ghost pre = s@.subrange(from as int, i as int);
        let c = s.get_char(i);
        let d = match dec_digit_of(c) {
            Some(d) => d,
            None => {
                assert(!all_dec_digits(digits)) by {
                    assert(digits[i - from] == c);
                }
                return None;
            },
        };
        let ghost ext = s@.subrange(from as int, i + 1);
        assert(ext.drop_last() =~= pre);
        assert(ext.last() == c);
        assert(all_dec_digits(ext)) by {
            assert(forall|j: int| 0 <= j < ext.len() - 1 ==> ext[j] == #[trigger] pre[j]);
        }
        let shifted = match acc.checked_mul(10) {
            Some(v) => v,
            None => {
                proof {
                    assert(dec_value(ext) > u64::MAX);
                    assert(digits =~= s@.subrange(from as int, s@.len() as int));
                    assert(ext =~= digits.subrange(0, i + 1 - from));
                    if all_dec_digits(digits) {
                        lemma_dec_value_prefix_le(digits, i + 1 - from);
                    }
                }
                return None;
            },
        };
        let next = match shifted.checked_add(d) {
            Some(v) => v,
            None => {
                proof {
                    assert(dec_value(ext) > u64::MAX);
                    assert(ext =~= digits.subrange(0, i + 1 - from));
                    if all_dec_digits(digits) {
                        lemma_dec_value_prefix_le(digits, i + 1 - from);
                    }
                }
                return None;
            },
        };
        acc = next;
        i = i + 1;
    }
    assert(s@.subrange(from as int, i as int) =~= digits);
    Some(acc)
}

/// Parses the hexadecimal digit run `s@.subrange(from, s@.len())`.
fn parse_hex_digits(s: &str, from: usize, len: usize) -> (r: Option<u64>)
    requires
        len == s@.len(),
        from <= len,
    ensures
        ({
            let digits = s@.subrange(from as int, s@.len() as int);
            &&& (r is Some <==> digits.len() > 0 && all_hex_digits(digits) && hex_value(digits)
                <= u64::MAX)
            &&& (r is Some ==> r->0 == hex_value(digits))
        }),
{
    let ghost digits = s@.subrange(from as int, s@.len() as int);
    if from == len {
        return None;
    }
    let mut acc: u64 = 0;
    let mut i: usize = from;
    while i < len
        invariant
            from <= i <= len,
            len == s@.len(),
            digits == s@.subrange(from as int, s@.len() as int),
            all_hex_digits(s@.subrange(from as int, i as int)),
            acc == hex_value(s@.subrange(from as int, i as int)),
        decreases len - i,
    {
        let ghost pre = s@.subrange(from as int, i as int);
        let c = s.get_char(i);
        let d = match hex_digit_of(c) {
            Some(d) => d,
            None => {
                assert(!all_hex_digits(digits)) by {
                    assert(digits[i - from] == c);
                }
                return None;
            },
        };
        let ghost ext = s@.subrange(from as int, i + 1);
        assert(ext.drop_last() =~= pre);
        assert(ext.last() == c);
        assert(all_hex_digits(ext)) by {
            assert(forall|j: int| 0 <= j < ext.len() - 1 ==> ext[j] == #[trigger] pre[j]);
        }
        let shifted = match acc.checked_mul(16) {
            Some(v) => v,
            None => {
                proof {
                    assert(hex_value(ext) > u64::MAX);
                    assert(ext =~= digits.subrange(0, i + 1 - from));
                    if all_hex_digits(digits) {
                        lemma_hex_value_prefix_le(digits, i + 1 - from);
                    }
                }
                return None;
            },
        };
        let next = match shifted.checked_add(d) {
            Some(v) => v,
            None => {
                proof {
                    assert(hex_value(ext) > u64::MAX);
                    assert(ext =~= digits.subrange(0, i + 1 - from));
                    if all_hex_digits(digits) {
                        lemma_hex_value_prefix_le(digits, i + 1 - from);
                    }
                }
                return None;
            },
        };
        acc = next;
        i = i + 1;
    }
    assert(s@.subrange(from as int, i as int) =~= digits);
    Some(acc)
}

/// Parses a numeric identifier string: plain decimal, or hexadecimal behind
/// a `0x` / `0X` prefix. Returns `None` exactly when the string is not a
/// well-formed encoding or its value does not fit in a `u64`.
pub fn parse_numeric(s: &str) -> (r: Option<u64>)
    ensures
        r is Some <==> numeric_value_u64(s@) is Some,
        r is Some ==> r->0 == numeric_value_u64(s@)->0,
{
    let len = s.unicode_len();
    if len >= 2 {
        let c0 = s.get_char(0);
        let c1 = s.get_char(1);
        if c0 == '0' && (c1 == 'x' || c1 == 'X') {
            let r = parse_hex_digits(s, 2, len);
            proof {
                let digits = s@.subrange(2, s@.len() as int);
                if digits.len() > 0 && all_hex_digits(digits) {
                    lemma_hex_value_nonneg(digits);
                }
            }
            return r;
        }
    }
    let r = parse_dec_digits(s, 0, len);
    proof {
        assert(s@.subrange(0, s@.len() as int) =~= s@);
        if s@.len() > 0 && all_dec_digits(s@) {
            lemma_dec_value_nonneg(s@);
        }
    }
    r
}

} // verus!
