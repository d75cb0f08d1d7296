//! Heuristics for reading the kind, tablet and hardware serial of a device from its
//! human-readable name, which is all some X drivers expose.
//!
//! Names are handled as bytes: every pattern searched for is ASCII, so cutting at the bytes
//! found never splits a multi-byte character.

use vstd::prelude::*;

use super::DeviceType;
use crate::tool::{HardwareID, Type};

verus! {

// ===================== text on bytes =====================

/// Whether `c` is ASCII whitespace as `u8::is_ascii_whitespace` has it
/// (space, tab, line feed, form feed, carriage return).
pub open spec fn is_ascii_ws(c: u8) -> bool {
    c == 32 || c == 9 || c == 10 || c == 12 || c == 13
}

/// `s` with its trailing ASCII whitespace removed.
pub open spec fn trim_ascii_end(s: Seq<u8>) -> Seq<u8>
    decreases s.len(),
{
    if s.len() > 0 && is_ascii_ws(s.last()) {
        trim_ascii_end(s.drop_last())
    } else {
        s
    }
}

/// `i` is the last position of `c` in `s`.
pub open spec fn is_last_index(s: Seq<u8>, c: u8, i: int) -> bool {
    &&& 0 <= i < s.len()
    &&& s[i] == c
    &&& forall|j: int| i < j < s.len() ==> s[j] != c
}

/// The last position of `c` in `s`, if any.
pub open spec fn rfind(s: Seq<u8>, c: u8) -> Option<int> {
    if exists|i: int| is_last_index(s, c, i) {
        Some(choose|i: int| is_last_index(s, c, i))
    } else {
        None
    }
}

/// `i` is the first position of `c` in `s` at or after `start`.
pub open spec fn is_first_index_from(s: Seq<u8>, start: int, c: u8, i: int) -> bool {
    &&& start <= i < s.len()
    &&& s[i] == c
    &&& forall|j: int| start <= j < i ==> s[j] != c
}

/// The first position of `c` in `s` at or after `start`, if any.
pub open spec fn find_from(s: Seq<u8>, start: int, c: u8) -> Option<int> {
    if exists|i: int| is_first_index_from(s, start, c, i) {
        Some(choose|i: int| is_first_index_from(s, start, c, i))
    } else {
        None
    }
}

/// Whether `s` ends with `suffix`.
pub open spec fn ends_with(s: Seq<u8>, suffix: Seq<u8>) -> bool {
    s.len() >= suffix.len() && s.subrange(s.len() - suffix.len(), s.len() as int) == suffix
}

/// Whether `s` starts with `prefix`.
pub open spec fn starts_with(s: Seq<u8>, prefix: Seq<u8>) -> bool {
    s.len() >= prefix.len() && s.subrange(0, prefix.len() as int) == prefix
}

/// The value of the digit `c` in radixes up to 36, or 36 if `c` is no digit.
pub open spec fn digit_value(c: u8) -> int {
    if 48 <= c <= 57 {
        c - 48
    } else if 97 <= c <= 122 {
        c - 97 + 10
    } else if 65 <= c <= 90 {
        c - 65 + 10
    } else {
        36
    }
}

/// Whether every byte of `s` is a digit of `radix`.
pub open spec fn all_digits(s: Seq<u8>, radix: int) -> bool {
    forall|i: int| 0 <= i < s.len() ==> #[trigger] digit_value(s[i]) < radix
}

/// The number that the digits of `s` write in `radix`, most significant first.
pub open spec fn digits_value(s: Seq<u8>, radix: int) -> int
    decreases s.len(),
{
    if s.len() == 0 {
        0
    } else {
        digits_value(s.drop_last(), radix) * radix + digit_value(s.last())
    }
}

/// An unsigned integer written in `radix` as `from_str_radix` reads it: an optional `+`,
/// then one or more digits, for a value of at most `max`.
pub open spec fn parse_radix(s: Seq<u8>, radix: int, max: int) -> Option<int> {
    let body = if s.len() > 0 && s[0] == 43 {
        s.drop_first()
    } else {
        s
    };
    if body.len() > 0 && all_digits(body, radix) && digits_value(body, radix) <= max {
        Some(digits_value(body, radix))
    } else {
        None
    }
}

/// An exec position as a spec position.
pub open spec fn pos(o: Option<usize>) -> Option<int> {
    match o {
        Some(i) => Some(i as int),
        None => None,
    }
}

proof fn lemma_last_index_unique(s: Seq<u8>, c: u8, i: int, k: int)
    requires
        is_last_index(s, c, i),
        is_last_index(s, c, k),
    ensures
        i == k,
{
    if i < k {
        assert(s[k] != c);
    }
    if k < i {
        assert(s[i] != c);
    }
}

proof fn lemma_first_index_unique(s: Seq<u8>, start: int, c: u8, i: int, k: int)
    requires
        is_first_index_from(s, start, c, i),
        is_first_index_from(s, start, c, k),
    ensures
        i == k,
{
    if i < k {
        assert(s[i] != c);
    }
    if k < i {
        assert(s[k] != c);
    }
}

/// The last position of `c` in `s`.
pub fn rfind_byte(s: &[u8], c: u8) -> (r: Option<usize>)
    ensures
        pos(r) == rfind(s@, c),
        r matches Some(i) ==> is_last_index(s@, c, i as int),
{
    let mut i = s.len();
    while i > 0
        invariant
            i <= s@.len(),
            forall|j: int| i <= j < s@.len() ==> s@[j] != c,
        decreases i,
    {
        if s[i - 1] == c {
            proof {
                assert(is_last_index(s@, c, i - 1));
                let k = choose|k: int| is_last_index(s@, c, k);
                lemma_last_index_unique(s@, c, i - 1, k);
            }
            return Some(i - 1);
        }
        i = i - 1;
    }
    None
}

/// The first position of `c` in `s` at or after `start`.
pub fn find_byte_from(s: &[u8], start: usize, c: u8) -> (r: Option<usize>)
    ensures
        pos(r) == find_from(s@, start as int, c),
        r matches Some(i) ==> is_first_index_from(s@, start as int, c, i as int),
{
    let mut i = start;
    while i < s.len()
        invariant
            start <= i,
            forall|j: int| start <= j < i && j < s@.len() ==> s@[j] != c,
        decreases s.len() - i,
    {
        if s[i] == c {
            proof {
                assert(is_first_index_from(s@, start as int, c, i as int));
                let k = choose|k: int| is_first_index_from(s@, start as int, c, k);
                lemma_first_index_unique(s@, start as int, c, i as int, k);
            }
            return Some(i);
        }
        i = i + 1;
    }
    None
}

/// Whether `s` ends with `suffix`.
pub fn bytes_end_with(s: &[u8], suffix: &[u8]) -> (b: bool)
    ensures
        b == ends_with(s@, suffix@),
{
    if s.len() < suffix.len() {
        return false;
    }
    let off = s.len() - suffix.len();
    let mut i: usize = 0;
    while i < suffix.len()
        invariant
            off + suffix@.len() == s@.len(),
            s@.len() <= usize::MAX,
            i <= suffix@.len(),
            forall|j: int| 0 <= j < i ==> s@[off + j] == suffix@[j],
        decreases suffix.len() - i,
    {
        if s[off + i] != suffix[i] {
            proof {
                assert(s@.subrange(off as int, s@.len() as int)[i as int] != suffix@[i as int]);
            }
            return false;
        }
        i = i + 1;
    }
    proof {
        assert(s@.subrange(off as int, s@.len() as int) =~= suffix@);
    }
    true
}

/// Whether `s` starts with `prefix`.
pub fn bytes_start_with(s: &[u8], prefix: &[u8]) -> (b: bool)
    ensures
        b == starts_with(s@, prefix@),
{
    if s.len() < prefix.len() {
        return false;
    }
    let mut i: usize = 0;
    while i < prefix.len()
        invariant
            prefix@.len() <= s@.len(),
            i <= prefix@.len(),
            forall|j: int| 0 <= j < i ==> s@[j] == prefix@[j],
        decreases prefix.len() - i,
    {
        if s[i] != prefix[i] {
            proof {
                assert(s@.subrange(0, prefix@.len() as int)[i as int] != prefix@[i as int]);
            }
            return false;
        }
        i = i + 1;
    }
    proof {
        assert(s@.subrange(0, prefix@.len() as int) =~= prefix@);
    }
    true
}

/// Whether `s` and `t` hold the same bytes.
pub fn bytes_equal(s: &[u8], t: &[u8]) -> (b: bool)
    ensures
        b == (s@ == t@),
{
    if s.len() != t.len() {
        return false;
    }
    let mut i: usize = 0;
    while i < s.len()
        invariant
            s@.len() == t@.len(),
            i <= s@.len(),
            forall|j: int| 0 <= j < i ==> s@[j] == t@[j],
        decreases s.len() - i,
    {
        if s[i] != t[i] {
            return false;
        }
        i = i + 1;
    }
    proof {
        assert(s@ =~= t@);
    }
    true
}

/// The length of `s` once its trailing ASCII whitespace is removed.
pub fn trim_ascii_end_len(s: &[u8]) -> (n: usize)
    ensures
        n <= s@.len(),
        s@.subrange(0, n as int) == trim_ascii_end(s@),
{
    let mut n = s.len();
    proof {
        assert(s@.subrange(0, n as int) =~= s@);
    }
    while n > 0 && (s[n - 1] == 32 || s[n - 1] == 9 || s[n - 1] == 10 || s[n - 1] == 12 || s[n
        - 1] == 13)
        invariant
            n <= s@.len(),
            trim_ascii_end(s@.subrange(0, n as int)) == trim_ascii_end(s@),
        decreases n,
    {
        proof {
            assert(s@.subrange(0, n as int).drop_last() =~= s@.subrange(0, n - 1));
        }
        n = n - 1;
    }
    proof {
        assert(trim_ascii_end(s@.subrange(0, n as int)) == s@.subrange(0, n as int));
    }
    n
}

/// The value of the digit `c` in radixes up to 36, or 36 if `c` is no digit.
fn digit_of(c: u8) -> (d: u8)
    ensures
        d as int == digit_value(c),
{
    if 48 <= c && c <= 57 {
        c - 48
    } else if 97 <= c && c <= 122 {
        c - 97 + 10
    } else if 65 <= c && c <= 90 {
        c - 65 + 10
    } else {
        36
    }
}

proof fn lemma_digits_value_nonneg(s: Seq<u8>, radix: int)
    requires
        radix >= 1,
        all_digits(s, radix),
    ensures
        digits_value(s, radix) >= 0,
    decreases s.len(),
{
    if s.len() > 0 {
        assert(all_digits(s.drop_last(), radix)) by {
            assert forall|i: int| 0 <= i < s.drop_last().len() implies #[trigger] digit_value(
                s.drop_last()[i],
            ) < radix by {
                assert(s.drop_last()[i] == s[i]);
            }
        }
        lemma_digits_value_nonneg(s.drop_last(), radix);
        assert(digit_value(s[s.len() - 1]) < radix);
        assert(digits_value(s.drop_last(), radix) * radix >= 0) by (nonlinear_arith)
            requires
                digits_value(s.drop_last(), radix) >= 0,
                radix >= 1,
        ;
    }
}

/// A longer run of digits never writes a smaller number.
proof fn lemma_digits_value_prefix(s: Seq<u8>, k: int, radix: int)
    requires
        radix >= 1,
        0 <= k <= s.len(),
        all_digits(s, radix),
    ensures
        digits_value(s.subrange(0, k), radix) <= digits_value(s, radix),
    decreases s.len() - k,
{
    if k < s.len() {
        let t = s.subrange(0, k + 1);
        assert(all_digits(t, radix)) by {
            assert forall|i: int| 0 <= i < t.len() implies #[trigger] digit_value(t[i]) < radix by {
                assert(t[i] == s[i]);
            }
        }
        lemma_digits_value_prefix(s, k + 1, radix);
        assert(t.drop_last() =~= s.subrange(0, k));
        lemma_digits_value_nonneg(t.drop_last(), radix);
        assert(digit_value(t.last()) >= 0);
        let v = digits_value(s.subrange(0, k), radix);
        assert(v * radix >= v) by (nonlinear_arith)
            requires
                v >= 0,
                radix >= 1,
        ;
        assert(digits_value(t, radix) == v * radix + digit_value(t.last()));
    } else {
        assert(s.subrange(0, k) =~= s);
    }
}

/// Read the digits `s` in `radix` (at most 16) as a number of at most `max`;
/// `None` if a byte is no digit or the number exceeds `max`.
fn digits_to_u64(s: &[u8], radix: u8, max: u64) -> (r: Option<u64>)
    requires
        2 <= radix <= 16,
    ensures
        match r {
            Some(v) => all_digits(s@, radix as int) && v == digits_value(s@, radix as int) && v <= max,
            None => !(all_digits(s@, radix as int) && digits_value(s@, radix as int) <= max),
        },
{
    let mut acc: u64 = 0;
    let mut i: usize = 0;
    while i < s.len()
        invariant
            2 <= radix <= 16,
            i <= s@.len(),
            all_digits(s@.subrange(0, i as int), radix as int),
            acc == digits_value(s@.subrange(0, i as int), radix as int),
            acc <= max,
        decreases s.len() - i,
    {
        let d = digit_of(s[i]);
        proof {
            assert(s@.subrange(0, i + 1).drop_last() =~= s@.subrange(0, i as int));
        }
        if d >= radix {
            proof {
                assert(!all_digits(s@, radix as int)) by {
                    assert(!(digit_value(s@[i as int]) < radix as int));
                }
            }
            return None;
        }
        assert((acc as int) * (radix as int) <= 0xffff_ffff_ffff_ffff * 16) by (nonlinear_arith)
            requires
                acc <= 0xffff_ffff_ffff_ffff,
                radix <= 16,
        ;
        let wide: u128 = (acc as u128) * (radix as u128) + (d as u128);
        proof {
            assert(all_digits(s@.subrange(0, i + 1), radix as int)) by {
                assert forall|j: int| 0 <= j < i + 1 implies #[trigger] digit_value(
                    s@.subrange(0, i + 1)[j],
                ) < radix as int by {
                    if j < i {
                        assert(s@.subrange(0, i + 1)[j] == s@.subrange(0, i as int)[j]);
                    }
                }
            }
        }
        if wide > max as u128 {
            proof {
                if all_digits(s@, radix as int) {
                    lemma_digits_value_prefix(s@, i + 1, radix as int);
                }
            }
            return None;
        }
        acc = wide as u64;
        i = i + 1;
    }
    proof {
        assert(s@.subrange(0, s@.len() as int) =~= s@);
    }
    Some(acc)
}

/// Read an unsigned integer in `radix` as `from_str_radix` does, rejecting values above `max`.
pub fn parse_unsigned(s: &[u8], radix: u8, max: u64) -> (r: Option<u64>)
    requires
        2 <= radix <= 16,
    ensures
        pos_u64(r) == parse_radix(s@, radix as int, max as int),
{
    let body: &[u8] = if s.len() > 0 && s[0] == 43 {
        &s[1..s.len()]
    } else {
        s
    };
    proof {
        if s@.len() > 0 && s@[0] == 43 {
            assert(body@ =~= s@.drop_first());
        }
    }
    if body.len() == 0 {
        return None;
    }
    digits_to_u64(body, radix, max)
}

/// An exec number as a spec number.
pub open spec fn pos_u64(o: Option<u64>) -> Option<int> {
    match o {
        Some(v) => Some(v as int),
        None => None,
    }
}

/// The device kind that the last word of a generic device name stands for.
pub open spec fn spec_word_type(w: Seq<u8>) -> Option<DeviceType> {
    if w == seq![112u8, 101u8, 110u8]  /* pen */ || w == seq![80u8, 101u8, 110u8]  /* Pen */ || w == seq![115u8, 116u8, 121u8, 108u8, 117u8, 115u8]  /* stylus */ || w == seq![83u8, 116u8, 121u8, 108u8, 117u8, 115u8]  /* Stylus */ {
        Some(DeviceType::Tool(Some(Type::Pen)))
    } else if w == seq![98u8, 114u8, 117u8, 115u8, 104u8]  /* brush */ || w == seq![66u8, 114u8, 117u8, 115u8, 104u8]  /* Brush */ {
        Some(DeviceType::Tool(Some(Type::Brush)))
    } else if w == seq![112u8, 101u8, 110u8, 99u8, 105u8, 108u8]  /* pencil */ || w == seq![80u8, 101u8, 110u8, 99u8, 105u8, 108u8]  /* Pencil */ {
        Some(DeviceType::Tool(Some(Type::Pencil)))
    } else if w == seq![97u8, 105u8, 114u8, 98u8, 114u8, 117u8, 115u8, 104u8]  /* airbrush */ || w == seq![65u8, 105u8, 114u8, 98u8, 114u8, 117u8, 115u8, 104u8]  /* Airbrush */ {
        Some(DeviceType::Tool(Some(Type::Airbrush)))
    } else if w == seq![101u8, 114u8, 97u8, 115u8, 101u8, 114u8]  /* eraser */ || w == seq![69u8, 114u8, 97u8, 115u8, 101u8, 114u8]  /* Eraser */ {
        Some(DeviceType::Tool(Some(Type::Eraser)))
    } else if w == seq![99u8, 117u8, 114u8, 115u8, 111u8, 114u8]  /* cursor */ || w == seq![67u8, 117u8, 114u8, 115u8, 111u8, 114u8]  /* Cursor */ || w == seq![109u8, 111u8, 117u8, 115u8, 101u8]  /* mouse */ || w == seq![77u8, 111u8, 117u8, 115u8, 101u8]  /* Mouse */ {
        Some(DeviceType::Tool(Some(Type::Mouse)))
    } else if w == seq![108u8, 101u8, 110u8, 115u8]  /* lens */ || w == seq![76u8, 101u8, 110u8, 115u8]  /* Lens */ {
        Some(DeviceType::Tool(Some(Type::Lens)))
    } else if w == seq![112u8, 97u8, 100u8]  /* pad */ || w == seq![80u8, 97u8, 100u8]  /* Pad */ {
        Some(DeviceType::Pad)
    } else {
        None
    }
}

/// The device kind that the last word of a generic device name stands for.
pub fn word_device_type(w: &[u8]) -> (r: Option<DeviceType>)
    ensures
        r == spec_word_type(w@),
{
    let lit: [u8; 3] = [112, 101, 110];  // pen
    if bytes_equal(w, &lit) {
        return Some(DeviceType::Tool(Some(Type::Pen)));
    }
    let lit: [u8; 3] = [80, 101, 110];  // Pen
    if bytes_equal(w, &lit) {
        return Some(DeviceType::Tool(Some(Type::Pen)));
    }
    let lit: [u8; 6] = [115, 116, 121, 108, 117, 115];  // stylus
    if bytes_equal(w, &lit) {
        return Some(DeviceType::Tool(Some(Type::Pen)));
    }
    let lit: [u8; 6] = [83, 116, 121, 108, 117, 115];  // Stylus
    if bytes_equal(w, &lit) {
        return Some(DeviceType::Tool(Some(Type::Pen)));
    }
    let lit: [u8; 5] = [98, 114, 117, 115, 104];  // brush
    if bytes_equal(w, &lit) {
        return Some(DeviceType::Tool(Some(Type::Brush)));
    }
    let lit: [u8; 5] = [66, 114, 117, 115, 104];  // Brush
    if bytes_equal(w, &lit) {
        return Some(DeviceType::Tool(Some(Type::Brush)));
    }
    let lit: [u8; 6] = [112, 101, 110, 99, 105, 108];  // pencil
    if bytes_equal(w, &lit) {
        return Some(DeviceType::Tool(Some(Type::Pencil)));
    }
    let lit: [u8; 6] = [80, 101, 110, 99, 105, 108];  // Pencil
    if bytes_equal(w, &lit) {
        return Some(DeviceType::Tool(Some(Type::Pencil)));
    }
    let lit: [u8; 8] = [97, 105, 114, 98, 114, 117, 115, 104];  // airbrush
    if bytes_equal(w, &lit) {
        return Some(DeviceType::Tool(Some(Type::Airbrush)));
    }
    let lit: [u8; 8] = [65, 105, 114, 98, 114, 117, 115, 104];  // Airbrush
    if bytes_equal(w, &lit) {
        return Some(DeviceType::Tool(Some(Type::Airbrush)));
    }
    let lit: [u8; 6] = [101, 114, 97, 115, 101, 114];  // eraser
    if bytes_equal(w, &lit) {
        return Some(DeviceType::Tool(Some(Type::Eraser)));
    }
    let lit: [u8; 6] = [69, 114, 97, 115, 101, 114];  // Eraser
    if bytes_equal(w, &lit) {
        return Some(DeviceType::Tool(Some(Type::Eraser)));
    }
    let lit: [u8; 6] = [99, 117, 114, 115, 111, 114];  // cursor
    if bytes_equal(w, &lit) {
        return Some(DeviceType::Tool(Some(Type::Mouse)));
    }
    let lit: [u8; 6] = [67, 117, 114, 115, 111, 114];  // Cursor
    if bytes_equal(w, &lit) {
        return Some(DeviceType::Tool(Some(Type::Mouse)));
    }
    let lit: [u8; 5] = [109, 111, 117, 115, 101];  // mouse
    if bytes_equal(w, &lit) {
        return Some(DeviceType::Tool(Some(Type::Mouse)));
    }
    let lit: [u8; 5] = [77, 111, 117, 115, 101];  // Mouse
    if bytes_equal(w, &lit) {
        return Some(DeviceType::Tool(Some(Type::Mouse)));
    }
    let lit: [u8; 4] = [108, 101, 110, 115];  // lens
    if bytes_equal(w, &lit) {
        return Some(DeviceType::Tool(Some(Type::Lens)));
    }
    let lit: [u8; 4] = [76, 101, 110, 115];  // Lens
    if bytes_equal(w, &lit) {
        return Some(DeviceType::Tool(Some(Type::Lens)));
    }
    let lit: [u8; 3] = [112, 97, 100];  // pad
    if bytes_equal(w, &lit) {
        return Some(DeviceType::Pad);
    }
    let lit: [u8; 3] = [80, 97, 100];  // Pad
    if bytes_equal(w, &lit) {
        return Some(DeviceType::Pad);
    }
    None
}


/// The hardware serial written into a device name as `(0x<hex>)` or `(0)`, and the name
/// that remains: the text before the last opening parenthesis with trailing whitespace removed
/// when a serial field was recognised, the whole name otherwise. `(0)` is read as no serial.
pub open spec fn spec_take_id(name: Seq<u8>) -> (Option<u64>, Seq<u8>) {
    match rfind(name, 40) {
        None => (None, name),
        Some(open) => match find_from(name, open + 1, 41) {
            None => (None, name),
            Some(close) => {
                let minus = trim_ascii_end(name.subrange(0, open));
                let text = name.subrange(open + 1, close);
                if text == seq![48u8] {
                    (None, minus)
                } else if starts_with(text, seq![48u8, 120u8]) {
                    match parse_radix(text.subrange(2, text.len() as int), 16, u64::MAX as int) {
                        Some(v) => (Some(v as u64), minus),
                        None => (None, name),
                    }
                } else {
                    (None, name)
                }
            },
        },
    }
}

/// Read the hardware serial field of a device name; the remaining name is the prefix of
/// `name` of the returned length.
#[verifier::rlimit(40)]
pub fn take_id(name: &[u8]) -> (r: (Option<u64>, usize))
    ensures
        r.1 <= name@.len(),
        (r.0, name@.subrange(0, r.1 as int)) == spec_take_id(name@),
{
    proof {
        assert(name@.subrange(0, name@.len() as int) =~= name@);
    }
    let len = name.len();
    let open = match rfind_byte(name, 40) {
        Some(i) => i,
        None => return (None, len),
    };
    assert(open < len);
    let close = match find_byte_from(name, open + 1, 41) {
        Some(i) => i,
        None => return (None, name.len()),
    };
    let before = &name[0..open];
    let keep = trim_ascii_end_len(before);
    proof {
        assert(name@.subrange(0, keep as int) =~= before@.subrange(0, keep as int));
    }
    let text = &name[open + 1..close];
    let zero: [u8; 1] = [48];
    proof {
        assert(zero@ == seq![48u8]);
    }
    if bytes_equal(text, &zero) {
        return (None, keep);
    }
    let hex_prefix: [u8; 2] = [48, 120];
    proof {
        assert(hex_prefix@ == seq![48u8, 120u8]);
    }
    if bytes_start_with(text, &hex_prefix) {
        let digits = &text[2..text.len()];
        proof {
            assert(digits@ =~= text@.subrange(2, text@.len() as int));
        }
        match parse_unsigned(digits, 16, u64::MAX) {
            Some(v) => (Some(v), keep),
            None => (None, name.len()),
        }
    } else {
        (None, name.len())
    }
}

/// `tablet` with a trailing "Pad" or "pad" replaced by "Pen": pads break the naming pattern of
/// the other devices of their tablet.
pub open spec fn spec_pad_to_pen(tablet: Seq<u8>) -> Seq<u8> {
    if ends_with(tablet, seq![80u8, 97u8, 100u8]) || ends_with(tablet, seq![112u8, 97u8, 100u8]) {
        tablet.subrange(0, tablet.len() - 3) + seq![80u8, 101u8, 110u8]
    } else {
        tablet
    }
}

/// The tablet name and device kind of a generic device name: "<tablet> unknown tool" is a tool
/// of unknown type; otherwise the last space-separated word names the kind, and the text
/// before it the tablet.
pub open spec fn spec_name_and_type(name: Seq<u8>) -> Option<(Seq<u8>, DeviceType)> {
    let unknown_tool = seq![32u8, 117u8, 110u8, 107u8, 110u8, 111u8, 119u8, 110u8, 32u8, 116u8, 111u8, 111u8, 108u8];
    if ends_with(name, unknown_tool) {
        Some((name.subrange(0, name.len() - unknown_tool.len()), DeviceType::Tool(None)))
    } else {
        match rfind(name, 32) {
            None => None,
            Some(space) => {
                let tablet = name.subrange(0, space);
                match spec_word_type(name.subrange(space + 1, name.len() as int)) {
                    None => None,
                    Some(DeviceType::Pad) => Some((spec_pad_to_pen(tablet), DeviceType::Pad)),
                    Some(t) => Some((tablet, t)),
                }
            },
        }
    }
}

/// Copy a run of bytes.
fn copy_bytes(s: &[u8]) -> (v: Vec<u8>)
    ensures
        v@ == s@,
{
    let mut v: Vec<u8> = Vec::new();
    let mut i: usize = 0;
    while i < s.len()
        invariant
            i <= s@.len(),
            v@ == s@.subrange(0, i as int),
        decreases s.len() - i,
    {
        v.push(s[i]);
        i = i + 1;
        proof {
            assert(v@ =~= s@.subrange(0, i as int));
        }
    }
    proof {
        assert(s@.subrange(0, s@.len() as int) =~= s@);
    }
    v
}

/// Read the tablet name and device kind from a generic device name.
pub fn name_and_type(name: &[u8]) -> (r: Option<(Vec<u8>, DeviceType)>)
    ensures
        match (r, spec_name_and_type(name@)) {
            (Some((n, t)), Some((sn, st))) => n@ == sn && t == st,
            (None, None) => true,
            _ => false,
        },
{
    let unknown_tool: [u8; 13] = [32, 117, 110, 107, 110, 111, 119, 110, 32, 116, 111, 111, 108];
    proof {
        assert(unknown_tool@ == seq![32u8, 117u8, 110u8, 107u8, 110u8, 111u8, 119u8, 110u8, 32u8, 116u8, 111u8, 111u8, 108u8]);
    }
    if bytes_end_with(name, &unknown_tool) {
        return Some((copy_bytes(&name[0..name.len() - 13]), DeviceType::Tool(None)));
    }
    let len = name.len();
    let space = match rfind_byte(name, 32) {
        Some(i) => i,
        None => return None,
    };
    assert(space < len);
    let word = &name[space + 1..name.len()];
    let tablet = &name[0..space];
    match word_device_type(word) {
        None => None,
        Some(DeviceType::Pad) => {
            let upper: [u8; 3] = [80, 97, 100];
            let lower: [u8; 3] = [112, 97, 100];
            proof {
                assert(upper@ == seq![80u8, 97u8, 100u8]);
                assert(lower@ == seq![112u8, 97u8, 100u8]);
            }
            if bytes_end_with(tablet, &upper) || bytes_end_with(tablet, &lower) {
                let mut out = copy_bytes(&tablet[0..tablet.len() - 3]);
                out.push(80);
                out.push(101);
                out.push(110);
                proof {
                    assert(out@ =~= tablet@.subrange(0, tablet@.len() - 3) + seq![80u8, 101u8, 110u8]);
                }
                Some((out, DeviceType::Pad))
            } else {
                Some((copy_bytes(tablet), DeviceType::Pad))
            }
        },
        Some(t) => Some((copy_bytes(tablet), t)),
    }
}

/// The information carried by the name of an Xwayland tablet device.
#[derive(Copy, Clone, Debug, PartialEq, Eq, Structural)]
pub struct XWaylandDeviceInfo {
    pub device_type: DeviceType,
    /// Opaque seat identifier.
    pub seat: u32,
}

/// The device kind for the class part of an Xwayland device name.
pub open spec fn spec_xwayland_class(class: Seq<u8>) -> Option<DeviceType> {
    if class == seq![45u8, 112u8, 97u8, 100u8] {
        Some(DeviceType::Pad)
    } else if class == seq![32u8, 115u8, 116u8, 121u8, 108u8, 117u8, 115u8] {
        Some(DeviceType::Tool(Some(Type::Pen)))
    } else if class == seq![32u8, 101u8, 114u8, 97u8, 115u8, 101u8, 114u8] {
        Some(DeviceType::Tool(Some(Type::Eraser)))
    } else if class == seq![32u8, 99u8, 117u8, 114u8, 115u8, 111u8, 114u8] {
        Some(DeviceType::Tool(Some(Type::Mouse)))
    } else {
        None
    }
}

/// The name prefix of Xwayland tablet devices.
pub open spec fn xwayland_prefix() -> Seq<u8> {
    seq![120u8, 119u8, 97u8, 121u8, 108u8, 97u8, 110u8, 100u8, 45u8, 116u8, 97u8, 98u8, 108u8, 101u8, 116u8]
}

/// An Xwayland device name: the prefix "xwayland-tablet", then a class ("-pad", " stylus",
/// " eraser" or " cursor"), then ':' and the decimal seat number.
pub open spec fn spec_parse_xwayland(name: Seq<u8>) -> Option<XWaylandDeviceInfo> {
    if !starts_with(name, xwayland_prefix()) {
        None
    } else {
        let rest = name.subrange(xwayland_prefix().len() as int, name.len() as int);
        match rfind(rest, 58) {
            None => None,
            Some(colon) => match (
                parse_radix(rest.subrange(colon + 1, rest.len() as int), 10, u32::MAX as int),
                spec_xwayland_class(rest.subrange(0, colon)),
            ) {
                (Some(seat), Some(t)) => Some(XWaylandDeviceInfo { device_type: t, seat: seat as u32 }),
                _ => None,
            },
        }
    }
}

/// Parse the device name of an Xwayland device, where the type is stored.
pub fn parse_xwayland_from_name(name: &[u8]) -> (r: Option<XWaylandDeviceInfo>)
    ensures
        r == spec_parse_xwayland(name@),
{
    let prefix: [u8; 15] = [120, 119, 97, 121, 108, 97, 110, 100, 45, 116, 97, 98, 108, 101, 116];
    proof {
        assert(prefix@ == xwayland_prefix());
    }
    if !bytes_start_with(name, &prefix) {
        return None;
    }
    let rest = &name[15..name.len()];
    let colon = match rfind_byte(rest, 58) {
        Some(i) => i,
        None => return None,
    };
    let seat = match parse_unsigned(&rest[colon + 1..rest.len()], 10, 0xffff_ffff) {
        Some(s) => s as u32,
        None => return None,
    };
    let class = &rest[0..colon];
    let pad: [u8; 4] = [45, 112, 97, 100];
    let stylus: [u8; 7] = [32, 115, 116, 121, 108, 117, 115];
    let eraser: [u8; 7] = [32, 101, 114, 97, 115, 101, 114];
    let cursor: [u8; 7] = [32, 99, 117, 114, 115, 111, 114];
    let device_type = if bytes_equal(class, &pad) {
        DeviceType::Pad
    } else if bytes_equal(class, &stylus) {
        DeviceType::Tool(Some(Type::Pen))
    } else if bytes_equal(class, &eraser) {
        DeviceType::Tool(Some(Type::Eraser))
    } else if bytes_equal(class, &cursor) {
        DeviceType::Tool(Some(Type::Mouse))
    } else {
        return None;
    };
    Some(XWaylandDeviceInfo { device_type, seat })
}

/// The fields read from a device name.
#[derive(Debug, Clone)]
pub enum ToolNameFields {
    Xwayland(XWaylandDeviceInfo),
    Generic {
        /// The name of the tablet we expect to own this tool or pad.
        maybe_associated_tablet: Option<Vec<u8>>,
        /// The hardware serial of the tool.
        id: Option<HardwareID>,
        /// The expected type of the device.
        device_type: Option<DeviceType>,
    },
}

impl ToolNameFields {
    /// The device kind these fields point to, if any.
    pub open spec fn spec_device_type(&self) -> Option<DeviceType> {
        match self {
            ToolNameFields::Xwayland(info) => Some(info.device_type),
            ToolNameFields::Generic { device_type, .. } => *device_type,
        }
    }

    /// The device kind these fields point to, if any.
    pub fn device_type(&self) -> (r: Option<DeviceType>)
        ensures
            r == self.spec_device_type(),
    {
        match self {
            ToolNameFields::Xwayland(info) => Some(info.device_type),
            ToolNameFields::Generic { device_type, .. } => *device_type,
        }
    }
}

/// What `guess_from_name` reads from `name`: the Xwayland fields if the name has the Xwayland
/// form, otherwise the hardware serial and the tablet name and kind of the generic form.
pub open spec fn spec_guess(name: Seq<u8>, r: ToolNameFields) -> bool {
    match spec_parse_xwayland(name) {
        Some(info) => r == ToolNameFields::Xwayland(info),
        None => {
            let (id, rest) = spec_take_id(name);
            match r {
                ToolNameFields::Xwayland(_) => false,
                ToolNameFields::Generic { maybe_associated_tablet, id: rid, device_type } => {
                    &&& rid == (match id {
                        Some(v) => Some(HardwareID(v)),
                        None => None,
                    })
                    &&& match spec_name_and_type(rest) {
                        Some((n, t)) => maybe_associated_tablet matches Some(m) && m@ == n
                            && device_type == Some(t),
                        None => maybe_associated_tablet is None && device_type is None,
                    }
                },
            }
        },
    }
}

/// From the user-facing device name, try to parse several tool fields.
pub fn guess_from_name(name: &[u8]) -> (r: ToolNameFields)
    ensures
        spec_guess(name@, r),
{
    if let Some(info) = parse_xwayland_from_name(name) {
        return ToolNameFields::Xwayland(info);
    }
    let (id, keep) = take_id(name);
    let rest = &name[0..keep];
    let parsed = name_and_type(rest);
    let (maybe_associated_tablet, device_type) = match parsed {
        Some((n, t)) => (Some(n), Some(t)),
        None => (None, None),
    };
    ToolNameFields::Generic {
        maybe_associated_tablet,
        id: match id {
            Some(v) => Some(HardwareID(v)),
            None => None,
        },
        device_type,
    }
}

/// The last space of "<tablet> <word>" is the one before the word, when the word holds none,
/// and such a name is not "<tablet> unknown tool" when its word does not end in "ol".
proof fn lemma_generic_name(tablet: Seq<u8>, w: Seq<u8>)
    requires
        2 <= w.len(),
        forall|k: int| 0 <= k < w.len() ==> w[k] != 32u8,
        w[w.len() - 1] != 108u8 || w[w.len() - 2] != 111u8,
    ensures
        spec_name_and_type(tablet + seq![32u8] + w) == match spec_word_type(w) {
            None => None,
            Some(DeviceType::Pad) => Some((spec_pad_to_pen(tablet), DeviceType::Pad)),
            Some(t) => Some((tablet, t)),
        },
{
    let name = tablet + seq![32u8] + w;
    let sp = tablet.len() as int;
    assert(name[sp] == 32u8);
    assert forall|j: int| sp < j < name.len() implies name[j] != 32u8 by {
        assert(name[j] == w[j - sp - 1]);
    }
    assert(is_last_index(name, 32u8, sp));
    let c = choose|i: int| is_last_index(name, 32u8, i);
    if c < sp {
        assert(name[sp] != 32u8);
    }
    if sp < c {
        assert(name[c] != 32u8);
    }
    assert(rfind(name, 32u8) == Some(sp));
    assert(name.subrange(0, sp) =~= tablet);
    assert(name.subrange(sp + 1, name.len() as int) =~= w);
    let unknown_tool = seq![32u8, 117u8, 110u8, 107u8, 110u8, 111u8, 119u8, 110u8, 32u8, 116u8, 111u8, 111u8, 108u8];
    if ends_with(name, unknown_tool) {
        let tail = name.subrange(name.len() - 13, name.len() as int);
        assert(tail[12] == name[name.len() - 1]);
        assert(tail[11] == name[name.len() - 2]);
        assert(name[name.len() - 1] == w[w.len() - 1]);
        assert(name[name.len() - 2] == w[w.len() - 2]);
        assert(tail[12] == 108u8 && tail[11] == 111u8);
    }
}

/// A name ending in the word "pen".
proof fn lemma_word_pen(tablet: Seq<u8>)
    ensures
        spec_name_and_type(tablet + seq![32u8] + seq![112u8, 101u8, 110u8]) == Some((tablet, DeviceType::Tool(Some(Type::Pen)))),
{
    let w = seq![112u8, 101u8, 110u8];
    assert(spec_word_type(w) == Some(DeviceType::Tool(Some(Type::Pen))));
    assert forall|k: int| 0 <= k < w.len() implies w[k] != 32u8 by {}
    lemma_generic_name(tablet, w);
}

/// A name ending in the word "Pen".
proof fn lemma_word_Pen(tablet: Seq<u8>)
    ensures
        spec_name_and_type(tablet + seq![32u8] + seq![80u8, 101u8, 110u8]) == Some((tablet, DeviceType::Tool(Some(Type::Pen)))),
{
    let w = seq![80u8, 101u8, 110u8];
    assert(spec_word_type(w) == Some(DeviceType::Tool(Some(Type::Pen))));
    assert forall|k: int| 0 <= k < w.len() implies w[k] != 32u8 by {}
    lemma_generic_name(tablet, w);
}

/// A name ending in the word "stylus".
proof fn lemma_word_stylus(tablet: Seq<u8>)
    ensures
        spec_name_and_type(tablet + seq![32u8] + seq![115u8, 116u8, 121u8, 108u8, 117u8, 115u8]) == Some((tablet, DeviceType::Tool(Some(Type::Pen)))),
{
    let w = seq![115u8, 116u8, 121u8, 108u8, 117u8, 115u8];
    assert(spec_word_type(w) == Some(DeviceType::Tool(Some(Type::Pen))));
    assert forall|k: int| 0 <= k < w.len() implies w[k] != 32u8 by {}
    lemma_generic_name(tablet, w);
}

/// A name ending in the word "Stylus".
proof fn lemma_word_Stylus(tablet: Seq<u8>)
    ensures
        spec_name_and_type(tablet + seq![32u8] + seq![83u8, 116u8, 121u8, 108u8, 117u8, 115u8]) == Some((tablet, DeviceType::Tool(Some(Type::Pen)))),
{
    let w = seq![83u8, 116u8, 121u8, 108u8, 117u8, 115u8];
    assert(spec_word_type(w) == Some(DeviceType::Tool(Some(Type::Pen))));
    assert forall|k: int| 0 <= k < w.len() implies w[k] != 32u8 by {}
    lemma_generic_name(tablet, w);
}

/// A name ending in the word "brush".
proof fn lemma_word_brush(tablet: Seq<u8>)
    ensures
        spec_name_and_type(tablet + seq![32u8] + seq![98u8, 114u8, 117u8, 115u8, 104u8]) == Some((tablet, DeviceType::Tool(Some(Type::Brush)))),
{
    let w = seq![98u8, 114u8, 117u8, 115u8, 104u8];
    assert(spec_word_type(w) == Some(DeviceType::Tool(Some(Type::Brush))));
    assert forall|k: int| 0 <= k < w.len() implies w[k] != 32u8 by {}
    lemma_generic_name(tablet, w);
}

/// A name ending in the word "Brush".
proof fn lemma_word_Brush(tablet: Seq<u8>)
    ensures
        spec_name_and_type(tablet + seq![32u8] + seq![66u8, 114u8, 117u8, 115u8, 104u8]) == Some((tablet, DeviceType::Tool(Some(Type::Brush)))),
{
    let w = seq![66u8, 114u8, 117u8, 115u8, 104u8];
    assert(spec_word_type(w) == Some(DeviceType::Tool(Some(Type::Brush))));
    assert forall|k: int| 0 <= k < w.len() implies w[k] != 32u8 by {}
    lemma_generic_name(tablet, w);
}

/// A name ending in the word "pencil".
proof fn lemma_word_pencil(tablet: Seq<u8>)
    ensures
        spec_name_and_type(tablet + seq![32u8] + seq![112u8, 101u8, 110u8, 99u8, 105u8, 108u8]) == Some((tablet, DeviceType::Tool(Some(Type::Pencil)))),
{
    let w = seq![112u8, 101u8, 110u8, 99u8, 105u8, 108u8];
    assert(spec_word_type(w) == Some(DeviceType::Tool(Some(Type::Pencil))));
    assert forall|k: int| 0 <= k < w.len() implies w[k] != 32u8 by {}
    lemma_generic_name(tablet, w);
}

/// A name ending in the word "Pencil".
proof fn lemma_word_Pencil(tablet: Seq<u8>)
    ensures
        spec_name_and_type(tablet + seq![32u8] + seq![80u8, 101u8, 110u8, 99u8, 105u8, 108u8]) == Some((tablet, DeviceType::Tool(Some(Type::Pencil)))),
{
    let w = seq![80u8, 101u8, 110u8, 99u8, 105u8, 108u8];
    assert(spec_word_type(w) == Some(DeviceType::Tool(Some(Type::Pencil))));
    assert forall|k: int| 0 <= k < w.len() implies w[k] != 32u8 by {}
    lemma_generic_name(tablet, w);
}

/// A name ending in the word "airbrush".
proof fn lemma_word_airbrush(tablet: Seq<u8>)
    ensures
        spec_name_and_type(tablet + seq![32u8] + seq![97u8, 105u8, 114u8, 98u8, 114u8, 117u8, 115u8, 104u8]) == Some((tablet, DeviceType::Tool(Some(Type::Airbrush)))),
{
    let w = seq![97u8, 105u8, 114u8, 98u8, 114u8, 117u8, 115u8, 104u8];
    assert(spec_word_type(w) == Some(DeviceType::Tool(Some(Type::Airbrush))));
    assert forall|k: int| 0 <= k < w.len() implies w[k] != 32u8 by {}
    lemma_generic_name(tablet, w);
}

/// A name ending in the word "Airbrush".
proof fn lemma_word_Airbrush(tablet: Seq<u8>)
    ensures
        spec_name_and_type(tablet + seq![32u8] + seq![65u8, 105u8, 114u8, 98u8, 114u8, 117u8, 115u8, 104u8]) == Some((tablet, DeviceType::Tool(Some(Type::Airbrush)))),
{
    let w = seq![65u8, 105u8, 114u8, 98u8, 114u8, 117u8, 115u8, 104u8];
    assert(spec_word_type(w) == Some(DeviceType::Tool(Some(Type::Airbrush))));
    assert forall|k: int| 0 <= k < w.len() implies w[k] != 32u8 by {}
    lemma_generic_name(tablet, w);
}

/// A name ending in the word "eraser".
proof fn lemma_word_eraser(tablet: Seq<u8>)
    ensures
        spec_name_and_type(tablet + seq![32u8] + seq![101u8, 114u8, 97u8, 115u8, 101u8, 114u8]) == Some((tablet, DeviceType::Tool(Some(Type::Eraser)))),
{
    let w = seq![101u8, 114u8, 97u8, 115u8, 101u8, 114u8];
    assert(spec_word_type(w) == Some(DeviceType::Tool(Some(Type::Eraser))));
    assert forall|k: int| 0 <= k < w.len() implies w[k] != 32u8 by {}
    lemma_generic_name(tablet, w);
}

/// A name ending in the word "Eraser".
proof fn lemma_word_Eraser(tablet: Seq<u8>)
    ensures
        spec_name_and_type(tablet + seq![32u8] + seq![69u8, 114u8, 97u8, 115u8, 101u8, 114u8]) == Some((tablet, DeviceType::Tool(Some(Type::Eraser)))),
{
    let w = seq![69u8, 114u8, 97u8, 115u8, 101u8, 114u8];
    assert(spec_word_type(w) == Some(DeviceType::Tool(Some(Type::Eraser))));
    assert forall|k: int| 0 <= k < w.len() implies w[k] != 32u8 by {}
    lemma_generic_name(tablet, w);
}

/// A name ending in the word "cursor".
proof fn lemma_word_cursor(tablet: Seq<u8>)
    ensures
        spec_name_and_type(tablet + seq![32u8] + seq![99u8, 117u8, 114u8, 115u8, 111u8, 114u8]) == Some((tablet, DeviceType::Tool(Some(Type::Mouse)))),
{
    let w = seq![99u8, 117u8, 114u8, 115u8, 111u8, 114u8];
    assert(spec_word_type(w) == Some(DeviceType::Tool(Some(Type::Mouse))));
    assert forall|k: int| 0 <= k < w.len() implies w[k] != 32u8 by {}
    lemma_generic_name(tablet, w);
}

/// A name ending in the word "Cursor".
proof fn lemma_word_Cursor(tablet: Seq<u8>)
    ensures
        spec_name_and_type(tablet + seq![32u8] + seq![67u8, 117u8, 114u8, 115u8, 111u8, 114u8]) == Some((tablet, DeviceType::Tool(Some(Type::Mouse)))),
{
    let w = seq![67u8, 117u8, 114u8, 115u8, 111u8, 114u8];
    assert(spec_word_type(w) == Some(DeviceType::Tool(Some(Type::Mouse))));
    assert forall|k: int| 0 <= k < w.len() implies w[k] != 32u8 by {}
    lemma_generic_name(tablet, w);
}

/// A name ending in the word "mouse".
proof fn lemma_word_mouse(tablet: Seq<u8>)
    ensures
        spec_name_and_type(tablet + seq![32u8] + seq![109u8, 111u8, 117u8, 115u8, 101u8]) == Some((tablet, DeviceType::Tool(Some(Type::Mouse)))),
{
    let w = seq![109u8, 111u8, 117u8, 115u8, 101u8];
    assert(spec_word_type(w) == Some(DeviceType::Tool(Some(Type::Mouse))));
    assert forall|k: int| 0 <= k < w.len() implies w[k] != 32u8 by {}
    lemma_generic_name(tablet, w);
}

/// A name ending in the word "Mouse".
proof fn lemma_word_Mouse(tablet: Seq<u8>)
    ensures
        spec_name_and_type(tablet + seq![32u8] + seq![77u8, 111u8, 117u8, 115u8, 101u8]) == Some((tablet, DeviceType::Tool(Some(Type::Mouse)))),
{
    let w = seq![77u8, 111u8, 117u8, 115u8, 101u8];
    assert(spec_word_type(w) == Some(DeviceType::Tool(Some(Type::Mouse))));
    assert forall|k: int| 0 <= k < w.len() implies w[k] != 32u8 by {}
    lemma_generic_name(tablet, w);
}

/// A name ending in the word "lens".
proof fn lemma_word_lens(tablet: Seq<u8>)
    ensures
        spec_name_and_type(tablet + seq![32u8] + seq![108u8, 101u8, 110u8, 115u8]) == Some((tablet, DeviceType::Tool(Some(Type::Lens)))),
{
    let w = seq![108u8, 101u8, 110u8, 115u8];
    assert(spec_word_type(w) == Some(DeviceType::Tool(Some(Type::Lens))));
    assert forall|k: int| 0 <= k < w.len() implies w[k] != 32u8 by {}
    lemma_generic_name(tablet, w);
}

/// A name ending in the word "Lens".
proof fn lemma_word_Lens(tablet: Seq<u8>)
    ensures
        spec_name_and_type(tablet + seq![32u8] + seq![76u8, 101u8, 110u8, 115u8]) == Some((tablet, DeviceType::Tool(Some(Type::Lens)))),
{
    let w = seq![76u8, 101u8, 110u8, 115u8];
    assert(spec_word_type(w) == Some(DeviceType::Tool(Some(Type::Lens))));
    assert forall|k: int| 0 <= k < w.len() implies w[k] != 32u8 by {}
    lemma_generic_name(tablet, w);
}

/// A name ending in the word "pad".
proof fn lemma_word_pad(tablet: Seq<u8>)
    ensures
        spec_name_and_type(tablet + seq![32u8] + seq![112u8, 97u8, 100u8]) matches Some((_, DeviceType::Pad)),
{
    let w = seq![112u8, 97u8, 100u8];
    assert(spec_word_type(w) == Some(DeviceType::Pad));
    assert forall|k: int| 0 <= k < w.len() implies w[k] != 32u8 by {}
    lemma_generic_name(tablet, w);
}

/// A name ending in the word "Pad".
proof fn lemma_word_Pad(tablet: Seq<u8>)
    ensures
        spec_name_and_type(tablet + seq![32u8] + seq![80u8, 97u8, 100u8]) matches Some((_, DeviceType::Pad)),
{
    let w = seq![80u8, 97u8, 100u8];
    assert(spec_word_type(w) == Some(DeviceType::Pad));
    assert forall|k: int| 0 <= k < w.len() implies w[k] != 32u8 by {}
    lemma_generic_name(tablet, w);
}

/// A generic device name "<tablet> <word>" names a device of the kind its last word says, on
/// the tablet named by the text before: pen and stylus are pens, brush a brush, pencil a
/// pencil, airbrush an airbrush, eraser an eraser, cursor and mouse a mouse, lens a lens (each
/// capitalized or not), and pad a pad.
pub proof fn lemma_tool_words_name_their_kind(tablet: Seq<u8>)
    ensures
        spec_name_and_type(tablet + seq![32u8] + seq![112u8, 101u8, 110u8]) == Some((tablet, DeviceType::Tool(Some(Type::Pen)))),
        spec_name_and_type(tablet + seq![32u8] + seq![80u8, 101u8, 110u8]) == Some((tablet, DeviceType::Tool(Some(Type::Pen)))),
        spec_name_and_type(tablet + seq![32u8] + seq![115u8, 116u8, 121u8, 108u8, 117u8, 115u8]) == Some((tablet, DeviceType::Tool(Some(Type::Pen)))),
        spec_name_and_type(tablet + seq![32u8] + seq![83u8, 116u8, 121u8, 108u8, 117u8, 115u8]) == Some((tablet, DeviceType::Tool(Some(Type::Pen)))),
        spec_name_and_type(tablet + seq![32u8] + seq![98u8, 114u8, 117u8, 115u8, 104u8]) == Some((tablet, DeviceType::Tool(Some(Type::Brush)))),
        spec_name_and_type(tablet + seq![32u8] + seq![66u8, 114u8, 117u8, 115u8, 104u8]) == Some((tablet, DeviceType::Tool(Some(Type::Brush)))),
        spec_name_and_type(tablet + seq![32u8] + seq![112u8, 101u8, 110u8, 99u8, 105u8, 108u8]) == Some((tablet, DeviceType::Tool(Some(Type::Pencil)))),
        spec_name_and_type(tablet + seq![32u8] + seq![80u8, 101u8, 110u8, 99u8, 105u8, 108u8]) == Some((tablet, DeviceType::Tool(Some(Type::Pencil)))),
        spec_name_and_type(tablet + seq![32u8] + seq![97u8, 105u8, 114u8, 98u8, 114u8, 117u8, 115u8, 104u8]) == Some((tablet, DeviceType::Tool(Some(Type::Airbrush)))),
        spec_name_and_type(tablet + seq![32u8] + seq![65u8, 105u8, 114u8, 98u8, 114u8, 117u8, 115u8, 104u8]) == Some((tablet, DeviceType::Tool(Some(Type::Airbrush)))),
        spec_name_and_type(tablet + seq![32u8] + seq![101u8, 114u8, 97u8, 115u8, 101u8, 114u8]) == Some((tablet, DeviceType::Tool(Some(Type::Eraser)))),
        spec_name_and_type(tablet + seq![32u8] + seq![69u8, 114u8, 97u8, 115u8, 101u8, 114u8]) == Some((tablet, DeviceType::Tool(Some(Type::Eraser)))),
        spec_name_and_type(tablet + seq![32u8] + seq![99u8, 117u8, 114u8, 115u8, 111u8, 114u8]) == Some((tablet, DeviceType::Tool(Some(Type::Mouse)))),
        spec_name_and_type(tablet + seq![32u8] + seq![67u8, 117u8, 114u8, 115u8, 111u8, 114u8]) == Some((tablet, DeviceType::Tool(Some(Type::Mouse)))),
        spec_name_and_type(tablet + seq![32u8] + seq![109u8, 111u8, 117u8, 115u8, 101u8]) == Some((tablet, DeviceType::Tool(Some(Type::Mouse)))),
        spec_name_and_type(tablet + seq![32u8] + seq![77u8, 111u8, 117u8, 115u8, 101u8]) == Some((tablet, DeviceType::Tool(Some(Type::Mouse)))),
        spec_name_and_type(tablet + seq![32u8] + seq![108u8, 101u8, 110u8, 115u8]) == Some((tablet, DeviceType::Tool(Some(Type::Lens)))),
        spec_name_and_type(tablet + seq![32u8] + seq![76u8, 101u8, 110u8, 115u8]) == Some((tablet, DeviceType::Tool(Some(Type::Lens)))),
        spec_name_and_type(tablet + seq![32u8] + seq![112u8, 97u8, 100u8]) matches Some((_, DeviceType::Pad)),
        spec_name_and_type(tablet + seq![32u8] + seq![80u8, 97u8, 100u8]) matches Some((_, DeviceType::Pad)),
{
    lemma_word_pen(tablet);
    lemma_word_Pen(tablet);
    lemma_word_stylus(tablet);
    lemma_word_Stylus(tablet);
    lemma_word_brush(tablet);
    lemma_word_Brush(tablet);
    lemma_word_pencil(tablet);
    lemma_word_Pencil(tablet);
    lemma_word_airbrush(tablet);
    lemma_word_Airbrush(tablet);
    lemma_word_eraser(tablet);
    lemma_word_Eraser(tablet);
    lemma_word_cursor(tablet);
    lemma_word_Cursor(tablet);
    lemma_word_mouse(tablet);
    lemma_word_Mouse(tablet);
    lemma_word_lens(tablet);
    lemma_word_Lens(tablet);
    lemma_word_pad(tablet);
    lemma_word_Pad(tablet);
}

} // verus!
