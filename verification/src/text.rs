//! Text as sequences of characters: comparison, UTF-16 in both directions, and numbers written
//! out in digits.
use vstd::prelude::*;
use vstd::slice::slice_subrange;
use vstd::utf8::*;

verus! {

/// `String::push` appends one character.
pub assume_specification[ std::string::String::push ](s: &mut std::string::String, c: char)
    ensures
        final(s)@ == old(s)@.push(c),
;

/// `char::from_u32` accepts exactly the Unicode scalar values: everything up to `0x10FFFF` that is
/// not a surrogate.
pub assume_specification[ char::from_u32 ](code: u32) -> (c: Option<char>)
    ensures
        c == (if is_scalar(code) {
            Some(code as char)
        } else {
            None::<char>
        }),
;

/// Whether two texts hold the same characters.
pub fn same_text(a: &str, b: &str) -> (same: bool)
    ensures
        same == (a@ == b@),
{
    let left = a.as_bytes();
    let right = b.as_bytes();
    proof {
        encode_utf8_decode_utf8(a@);
        encode_utf8_decode_utf8(b@);
    }
    if left.len() != right.len() {
        return false;
    }
    let mut i: usize = 0;
    while i < left.len()
        invariant
            i <= left.len(),
            left.len() == right.len(),
            left@ == encode_utf8(a@),
            right@ == encode_utf8(b@),
            forall|k: int| 0 <= k < i ==> left@[k] == right@[k],
        decreases left.len() - i,
    {
        if left[i] != right[i] {
            return false;
        }
        i += 1;
    }
    assert(left@ =~= right@);
    true
}

/// The characters of a text, one by one.
pub fn chars_of(s: &str) -> (out: Vec<char>)
    ensures
        out@ == s@,
{
    let mut out: Vec<char> = Vec::new();
    for c in it: s.chars()
        invariant
            it.seq() == s@,
            out@ == s@.take(it.index() as int),
    {
        out.push(c);
        assert(s@.take(it.index() as int).push(c) =~= s@.take(it.index() + 1));
    }
    assert(s@.take(s@.len() as int) =~= s@);
    out
}


/// What `String::from_utf8_lossy` makes of some bytes.
pub uninterp spec fn utf8_lossy(bytes: Seq<u8>) -> Seq<char>;

/// `String::from_utf8_lossy`: valid UTF-8 comes out as the text it spells; anything else comes out
/// as some text with [`REPLACEMENT`] where the bytes made no sense.
#[verifier::external_body]
pub(crate) fn from_utf8_lossy(bytes: &[u8]) -> (s: String)
    ensures
        s@ == utf8_lossy(bytes@),
        valid_utf8(bytes@) ==> s@ == decode_utf8(bytes@),
        !valid_utf8(bytes@) ==> s@.contains(REPLACEMENT),
{
    String::from_utf8_lossy(bytes).into_owned()
}

// ---------------------------------------------------------------------------------------------
// UTF-16

/// What stands in for a surrogate that has no partner.
pub const REPLACEMENT: char = '\u{FFFD}';

pub open spec fn is_high_surrogate(unit: u16) -> bool {
    0xD800 <= unit <= 0xDBFF
}

pub open spec fn is_low_surrogate(unit: u16) -> bool {
    0xDC00 <= unit <= 0xDFFF
}

/// The one or two UTF-16 units of a character.
pub open spec fn utf16_of_char(c: char) -> Seq<u16> {
    let code = c as u32;
    if code < 0x10000 {
        seq![code as u16]
    } else {
        seq![(0xD800 + (code - 0x10000) / 0x400) as u16, (0xDC00 + (code - 0x10000) % 0x400) as u16]
    }
}

/// A text in UTF-16.
pub open spec fn utf16_of(s: Seq<char>) -> Seq<u16>
    decreases s.len(),
{
    if s.len() == 0 {
        Seq::empty()
    } else {
        utf16_of_char(s[0]) + utf16_of(s.skip(1))
    }
}

/// The text that UTF-16 units spell, from unit `i` on. A surrogate without its partner reads as
/// [`REPLACEMENT`].
pub open spec fn text_of_utf16(units: Seq<u16>, i: int) -> Seq<char>
    decreases units.len() - i,
    when i >= 0
{
    if i >= units.len() {
        Seq::empty()
    } else if is_high_surrogate(units[i]) && i + 1 < units.len() && is_low_surrogate(units[i + 1]) {
        seq![(0x10000 + (units[i] - 0xD800) * 0x400 + (units[i + 1] - 0xDC00)) as char]
            + text_of_utf16(units, i + 2)
    } else if is_high_surrogate(units[i]) || is_low_surrogate(units[i]) {
        seq![REPLACEMENT] + text_of_utf16(units, i + 1)
    } else {
        seq![units[i] as char] + text_of_utf16(units, i + 1)
    }
}

/// The UTF-16 units of a text.
pub fn encode_utf16(s: &str) -> (units: Vec<u16>)
    ensures
        units@ == utf16_of(s@),
{
    let mut units: Vec<u16> = Vec::new();
    let chars = chars_of(s);
    let mut i: usize = 0;
    assert(s@.skip(0) =~= s@);
    while i < chars.len()
        invariant
            i <= chars.len(),
            chars@ == s@,
            units@ + utf16_of(s@.skip(i as int)) == utf16_of(s@),
        decreases chars.len() - i,
    {
        let ghost before = units@;
        let ghost rest = s@.skip(i as int);
        let code: u32 = chars[i] as u32;
        proof {
            char_is_scalar(chars@[i as int]);
            assert(rest[0] == chars@[i as int]);
            assert(rest.skip(1) =~= s@.skip(i + 1));
        }
        if code < 0x10000 {
            units.push(code as u16);
        } else {
            units.push((0xD800 + (code - 0x10000) / 0x400) as u16);
            units.push((0xDC00 + (code - 0x10000) % 0x400) as u16);
        }
        assert(units@ =~= before + utf16_of_char(chars@[i as int]));
        assert(units@ + utf16_of(s@.skip(i + 1)) =~= before + utf16_of(rest));
        i += 1;
    }
    assert(units@ =~= utf16_of(s@));
    units
}

/// The text that UTF-16 units spell.
pub fn decode_utf16(units: &[u16]) -> (s: String)
    ensures
        s@ == text_of_utf16(units@, 0),
{
    let mut s = String::new();
    let mut i: usize = 0;
    while i < units.len()
        invariant
            i <= units.len(),
            s@ + text_of_utf16(units@, i as int) == text_of_utf16(units@, 0),
        decreases units.len() - i,
    {
        let ghost before = s@;
        let unit: u16 = units[i];
        if 0xD800 <= unit && unit <= 0xDBFF && i + 1 < units.len() && 0xDC00 <= units[i + 1]
            && units[i + 1] <= 0xDFFF {
            let code: u32 = 0x10000 + (unit as u32 - 0xD800) * 0x400 + (units[i + 1] as u32
                - 0xDC00);
            s.push(char_of(code));
            assert(s@ + text_of_utf16(units@, i + 2) =~= before + text_of_utf16(units@, i as int));
            i += 2;
        } else if 0xD800 <= unit && unit <= 0xDFFF {
            s.push(REPLACEMENT);
            assert(s@ + text_of_utf16(units@, i + 1) =~= before + text_of_utf16(units@, i as int));
            i += 1;
        } else {
            s.push(char_of(unit as u32));
            assert(s@ + text_of_utf16(units@, i + 1) =~= before + text_of_utf16(units@, i as int));
            i += 1;
        }
    }
    assert(s@ =~= text_of_utf16(units@, 0));
    s
}

/// The character with a given scalar value.
fn char_of(code: u32) -> (c: char)
    requires
        is_scalar(code),
    ensures
        c == code as char,
{
    match char::from_u32(code) {
        Some(c) => c,
        None => REPLACEMENT,
    }
}

/// Reading text back from its UTF-16 form gives the same text.
pub proof fn utf16_round_trip(s: Seq<char>)
    ensures
        text_of_utf16(utf16_of(s), 0) == s,
{
    assert(Seq::<u16>::empty() + utf16_of(s) =~= utf16_of(s));
    utf16_round_trip_after(Seq::empty(), s);
}

proof fn utf16_round_trip_after(front: Seq<u16>, s: Seq<char>)
    ensures
        text_of_utf16(front + utf16_of(s), front.len() as int) == s,
    decreases s.len(),
{
    if s.len() > 0 {
        let c = s[0];
        char_is_scalar(c);
        let units = front + utf16_of(s);
        let longer = front + utf16_of_char(c);
        assert(units =~= longer + utf16_of(s.skip(1)));
        utf16_round_trip_after(longer, s.skip(1));
        let code = c as u32;
        assert(units[front.len() as int] == utf16_of_char(c)[0]);
        if code >= 0x10000 {
            assert(units[front.len() as int + 1] == utf16_of_char(c)[1]);
        }
        char_u32_cast(c, code);
        assert(seq![c] + s.skip(1) =~= s);
    }
}

/// A text and its UTF-16 form are empty together, and the form is at most twice as long.
pub proof fn utf16_length(s: Seq<char>)
    ensures
        s.len() <= utf16_of(s).len() <= 2 * s.len(),
    decreases s.len(),
{
    if s.len() > 0 {
        utf16_length(s.skip(1));
    }
}

// ---------------------------------------------------------------------------------------------
// Numbers in digits

/// The decimal digit of a value below ten.
pub open spec fn digit(d: nat) -> char {
    (48 + d) as char
}

/// A number in decimal, without leading zeros.
pub open spec fn decimal(n: nat) -> Seq<char>
    decreases n,
{
    if n < 10 {
        seq![digit(n)]
    } else {
        decimal(n / 10).push(digit(n % 10))
    }
}

/// A number in decimal, with a minus sign where it is negative.
pub open spec fn signed_decimal(n: int) -> Seq<char> {
    if n < 0 {
        seq!['-'] + decimal((-n) as nat)
    } else {
        decimal(n as nat)
    }
}

/// The lower-case hexadecimal digit of a value below sixteen.
pub open spec fn hex_digit(d: nat) -> char {
    if d < 10 {
        (48 + d) as char
    } else {
        (87 + d) as char
    }
}

/// A byte as `0x` and two hexadecimal digits.
pub open spec fn hex_byte(b: u8) -> Seq<char> {
    seq!['0', 'x', hex_digit((b / 16) as nat), hex_digit((b % 16) as nat)]
}

pub fn push_decimal(out: &mut String, n: u64)
    ensures
        final(out)@ == old(out)@ + decimal(n as nat),
    decreases n,
{
    let ghost before = out@;
    if n >= 10 {
        push_decimal(out, n / 10);
    }
    out.push((48 + (n % 10) as u8) as char);
    assert(out@ =~= before + decimal(n as nat));
}

/// A number written out in decimal.
pub fn to_decimal(n: i64) -> (s: String)
    ensures
        s@ == signed_decimal(n as int),
{
    let mut s = String::new();
    if n < 0 {
        s.push('-');
        push_decimal(&mut s, (-(n as i128)) as u64);
    } else {
        push_decimal(&mut s, n as u64);
    }
    assert(s@ =~= signed_decimal(n as int));
    s
}

/// A byte written out in hexadecimal.
pub fn to_hex_byte(b: u8) -> (s: String)
    ensures
        s@ == hex_byte(b),
{
    let mut s = String::new();
    s.push('0');
    s.push('x');
    s.push(to_hex_digit(b / 16));
    s.push(to_hex_digit(b % 16));
    assert(s@ =~= hex_byte(b));
    s
}

fn to_hex_digit(d: u8) -> (c: char)
    requires
        d < 16,
    ensures
        c == hex_digit(d as nat),
{
    if d < 10 {
        (48 + d) as char
    } else {
        (87 + d) as char
    }
}

/// The upper-case hexadecimal digit of a value below sixteen.
pub open spec fn upper_hex_digit(d: nat) -> char {
    if d < 10 {
        (48 + d) as char
    } else {
        (55 + d) as char
    }
}

/// The last `n` upper-case hexadecimal digits of a number.
pub open spec fn upper_hex(v: nat, n: nat) -> Seq<char>
    decreases n,
{
    if n == 0 {
        Seq::empty()
    } else {
        upper_hex(v / 16, (n - 1) as nat).push(upper_hex_digit(v % 16))
    }
}

/// Appends the last `n` upper-case hexadecimal digits of a number.
pub fn push_upper_hex(out: &mut String, v: u32, n: u8)
    ensures
        final(out)@ == old(out)@ + upper_hex(v as nat, n as nat),
    decreases n,
{
    let ghost before = out@;
    if n > 0 {
        push_upper_hex(out, v / 16, n - 1);
        let d: u8 = (v % 16) as u8;
        out.push(
            if d < 10 {
                (48 + d) as char
            } else {
                (55 + d) as char
            },
        );
    }
    assert(out@ =~= before + upper_hex(v as nat, n as nat));
}

/// The first `n` bytes as two-digit hexadecimal numbers, separated by commas.
pub open spec fn hex_list(bytes: Seq<u8>, n: nat) -> Seq<char>
    decreases n,
{
    if n == 0 {
        Seq::empty()
    } else {
        let d = bytes[n - 1];
        hex_list(bytes, (n - 1) as nat) + (if n == 1 {
            Seq::empty()
        } else {
            seq![',', ' ']
        }) + seq![hex_digit((d / 16) as nat), hex_digit((d % 16) as nat)]
    }
}

/// Appends the bytes as two-digit hexadecimal numbers, separated by commas.
pub fn push_hex_list(out: &mut String, bytes: &[u8])
    ensures
        final(out)@ == old(out)@ + hex_list(bytes@, bytes@.len()),
{
    let ghost before = out@;
    let mut i: usize = 0;
    assert(out@ =~= before + hex_list(bytes@, 0));
    while i < bytes.len()
        invariant
            i <= bytes@.len(),
            out@ == before + hex_list(bytes@, i as nat),
        decreases bytes@.len() - i,
    {
        let ghost here = out@;
        if i > 0 {
            out.push(',');
            out.push(' ');
        }
        out.push(to_hex_digit(bytes[i] / 16));
        out.push(to_hex_digit(bytes[i] % 16));
        assert(out@ =~= before + hex_list(bytes@, (i + 1) as nat));
        i += 1;
    }
}

// ---------------------------------------------------------------------------------------------
// Numbers out of digits

/// The value of a run of decimal digits.
pub open spec fn digits_value(s: Seq<char>) -> nat
    decreases s.len(),
{
    if s.len() == 0 {
        0
    } else {
        (10 * digits_value(s.drop_last()) + (s.last() as int - 48)) as nat
    }
}

pub open spec fn is_digit(c: char) -> bool {
    '0' <= c <= '9'
}

pub open spec fn all_digits(s: Seq<char>) -> bool {
    forall|i: int| 0 <= i < s.len() ==> is_digit(#[trigger] s[i])
}

/// A number of at most `max`: digits, at least one.
pub open spec fn plain_number(digits: Seq<char>, max: nat) -> Option<nat> {
    if digits.len() > 0 && all_digits(digits) && digits_value(digits) <= max {
        Some(digits_value(digits))
    } else {
        None
    }
}

/// A number of at most `max`, with a plus sign in front or not.
pub open spec fn number_of(s: Seq<char>, max: nat) -> Option<nat> {
    if s.len() > 0 && s[0] == '+' {
        plain_number(s.skip(1), max)
    } else {
        plain_number(s, max)
    }
}

proof fn digits_value_grows(s: Seq<char>, n: int)
    requires
        0 <= n <= s.len(),
        all_digits(s),
    ensures
        digits_value(s.take(n)) <= digits_value(s),
    decreases s.len() - n,
{
    if n == s.len() {
        assert(s.take(n) =~= s);
    } else {
        assert(s.take(n + 1).drop_last() =~= s.take(n));
        assert(is_digit(s[n]));
        assert(s.take(n + 1).last() == s[n]);
        digits_value_grows(s, n + 1);
    }
}

/// Reads a number of at most `max` out of a run of characters.
pub fn parse_number(s: &[char], max: u64) -> (n: Option<u64>)
    ensures
        match (n, number_of(s@, max as nat)) {
            (Some(v), Some(w)) => v == w,
            (None, None) => true,
            _ => false,
        },
{
    let start: usize = if s.len() > 0 && s[0] == '+' {
        1
    } else {
        0
    };
    let ghost digits = s@.skip(start as int);
    assert(start == 0 ==> digits =~= s@);
    if s.len() == start {
        return None;
    }
    let mut value: u64 = 0;
    let mut i: usize = start;
    assert(digits.take(0) =~= Seq::<char>::empty());
    while i < s.len()
        invariant
            start <= i <= s@.len(),
            digits == s@.skip(start as int),
            digits.len() > 0,
            number_of(s@, max as nat) == plain_number(digits, max as nat),
            forall|k: int| 0 <= k < i - start ==> is_digit(#[trigger] digits[k]),
            value == digits_value(digits.take(i - start)),
            value <= max,
        decreases s@.len() - i,
    {
        let c: char = s[i];
        assert(digits[i - start] == c);
        if c < '0' || c > '9' {
            return None;
        }
        let next: u128 = value as u128 * 10 + (c as u32 - 48) as u128;
        proof {
            let longer = digits.take(i - start + 1);
            assert(longer.drop_last() =~= digits.take(i - start));
            assert(longer.last() == c);
            assert(digits_value(longer) == next);
            if next > max {
                if all_digits(digits) {
                    digits_value_grows(digits, i - start + 1);
                }
            }
        }
        if next > max as u128 {
            return None;
        }
        value = next as u64;
        i += 1;
    }
    assert(digits.take(digits.len() as int) =~= digits);
    Some(value)
}

/// Where a character first stands, or the length if it does not.
pub open spec fn first_place(s: Seq<char>, c: char) -> int
    decreases s.len(),
{
    if s.len() == 0 {
        0
    } else if s[0] == c {
        0
    } else {
        1 + first_place(s.skip(1), c)
    }
}

/// The part of a text in front of the first `c`, which is all of it if there is none.
pub open spec fn before_first(s: Seq<char>, c: char) -> Seq<char> {
    s.take(first_place(s, c))
}

/// The first place of a character is what it says: the character stands there, and nowhere before.
pub proof fn first_place_is_first(s: Seq<char>, c: char)
    ensures
        0 <= first_place(s, c) <= s.len(),
        first_place(s, c) < s.len() ==> s[first_place(s, c)] == c,
        forall|i: int| 0 <= i < first_place(s, c) ==> s[i] != c,
    decreases s.len(),
{
    if s.len() > 0 && s[0] != c {
        first_place_is_first(s.skip(1), c);
        assert forall|i: int| 0 <= i < first_place(s, c) implies s[i] != c by {
            if i > 0 {
                assert(s.skip(1)[i - 1] == s[i]);
            }
        }
    }
}

/// A place where a character stands, and nowhere before, is its first.
pub proof fn first_place_unique(s: Seq<char>, c: char, n: int)
    requires
        0 <= n <= s.len(),
        n < s.len() ==> s[n] == c,
        forall|i: int| 0 <= i < n ==> s[i] != c,
    ensures
        first_place(s, c) == n,
{
    first_place_is_first(s, c);
    let m = first_place(s, c);
    if m < n {
        assert(s[m] != c);
    }
    if n < m {
        assert(s[n] != c);
    }
}

/// Finds the first place of a character.
pub fn find_char(s: &[char], c: char) -> (n: usize)
    ensures
        n == first_place(s@, c),
        n <= s@.len(),
{
    let mut i: usize = 0;
    while i < s.len()
        invariant
            i <= s@.len(),
            forall|k: int| 0 <= k < i ==> s@[k] != c,
        decreases s@.len() - i,
    {
        if s[i] == c {
            proof {
                first_place_unique(s@, c, i as int);
            }
            return i;
        }
        i += 1;
    }
    proof {
        first_place_unique(s@, c, i as int);
    }
    i
}

// ---------------------------------------------------------------------------------------------
// Alphabetical order

/// Whether one text comes no later than another, character by character.
pub open spec fn text_le(a: Seq<char>, b: Seq<char>) -> bool
    decreases a.len(),
{
    if a.len() == 0 {
        true
    } else if b.len() == 0 {
        false
    } else if a[0] != b[0] {
        a[0] < b[0]
    } else {
        text_le(a.skip(1), b.skip(1))
    }
}

/// Of two texts, one comes no later than the other.
pub proof fn text_le_total(a: Seq<char>, b: Seq<char>)
    ensures
        text_le(a, b) || text_le(b, a),
    decreases a.len(),
{
    if a.len() > 0 && b.len() > 0 && a[0] == b[0] {
        text_le_total(a.skip(1), b.skip(1));
    }
}

/// What comes no later than a text comes no later than any behind it.
pub proof fn text_le_transitive(a: Seq<char>, b: Seq<char>, c: Seq<char>)
    requires
        text_le(a, b),
        text_le(b, c),
    ensures
        text_le(a, c),
    decreases a.len(),
{
    if a.len() > 0 && a[0] == b[0] && b[0] == c[0] {
        text_le_transitive(a.skip(1), b.skip(1), c.skip(1));
    }
}

/// Two texts that come no later than each other are the same.
pub proof fn text_le_antisymmetric(a: Seq<char>, b: Seq<char>)
    requires
        text_le(a, b),
        text_le(b, a),
    ensures
        a == b,
    decreases a.len(),
{
    if a.len() > 0 && b.len() > 0 {
        text_le_antisymmetric(a.skip(1), b.skip(1));
        assert(a =~= seq![a[0]] + a.skip(1));
        assert(b =~= seq![b[0]] + b.skip(1));
    } else {
        assert(a =~= b);
    }
}

/// Whether one text comes no later than another.
pub fn text_at_most(a: &str, b: &str) -> (yes: bool)
    ensures
        yes == text_le(a@, b@),
{
    let left = chars_of(a);
    let right = chars_of(b);
    let mut i: usize = 0;
    assert(left@.skip(0) =~= left@);
    assert(right@.skip(0) =~= right@);
    while i < left.len() && i < right.len()
        invariant
            i <= left@.len(),
            i <= right@.len(),
            left@ == a@,
            right@ == b@,
            text_le(a@, b@) == text_le(left@.skip(i as int), right@.skip(i as int)),
        decreases left@.len() - i,
    {
        proof {
            let l = left@.skip(i as int);
            let r = right@.skip(i as int);
            assert(l[0] == left@[i as int]);
            assert(r[0] == right@[i as int]);
            assert(l.skip(1) =~= left@.skip(i + 1));
            assert(r.skip(1) =~= right@.skip(i + 1));
        }
        if left[i] != right[i] {
            return left[i] < right[i];
        }
        i += 1;
    }
    i == left.len()
}

// ---------------------------------------------------------------------------------------------
// Parts of texts

/// What `str::to_lowercase` makes of a text.
pub uninterp spec fn lowercase(s: Seq<char>) -> Seq<char>;

/// `str::to_lowercase`: the text in lower case, by Unicode's rules.
#[verifier::external_body]
pub(crate) fn to_lowercase(s: &str) -> (lower: String)
    ensures
        lower@ == lowercase(s@),
{
    s.to_lowercase()
}

/// A text without the given start, or nothing if it starts otherwise.
pub open spec fn without_prefix(s: Seq<char>, prefix: Seq<char>) -> Option<Seq<char>> {
    if prefix.len() <= s.len() && s.take(prefix.len() as int) == prefix {
        Some(s.skip(prefix.len() as int))
    } else {
        None
    }
}

/// A text without the given end, or nothing if it ends otherwise.
pub open spec fn without_suffix(s: Seq<char>, suffix: Seq<char>) -> Option<Seq<char>> {
    if suffix.len() <= s.len() && s.skip(s.len() - suffix.len()) == suffix {
        Some(s.take(s.len() - suffix.len()))
    } else {
        None
    }
}

fn same_chars(a: &[char], b: &[char]) -> (same: bool)
    ensures
        same == (a@ == b@),
{
    if a.len() != b.len() {
        return false;
    }
    let mut i: usize = 0;
    while i < a.len()
        invariant
            i <= a@.len(),
            a@.len() == b@.len(),
            a.len() == b.len(),
            forall|k: int| 0 <= k < i ==> a@[k] == b@[k],
        decreases a@.len() - i,
    {
        if a[i] != b[i] {
            return false;
        }
        i += 1;
    }
    assert(a@ =~= b@);
    true
}

pub fn strip_prefix<'a>(s: &'a [char], prefix: &str) -> (rest: Option<&'a [char]>)
    ensures
        match (rest, without_prefix(s@, prefix@)) {
            (Some(r), Some(w)) => r@ == w,
            (None, None) => true,
            _ => false,
        },
{
    let p = chars_of(prefix);
    if p.len() > s.len() {
        return None;
    }
    let head = slice_subrange(s, 0, p.len());
    assert(head@ =~= s@.take(p@.len() as int));
    if same_chars(head, p.as_slice()) {
        let rest = slice_subrange(s, p.len(), s.len());
        assert(rest@ =~= s@.skip(p@.len() as int));
        Some(rest)
    } else {
        None
    }
}

pub fn strip_suffix<'a>(s: &'a [char], suffix: &str) -> (rest: Option<&'a [char]>)
    ensures
        match (rest, without_suffix(s@, suffix@)) {
            (Some(r), Some(w)) => r@ == w,
            (None, None) => true,
            _ => false,
        },
{
    let p = chars_of(suffix);
    if p.len() > s.len() {
        return None;
    }
    let at: usize = s.len() - p.len();
    let tail = slice_subrange(s, at, s.len());
    assert(tail@ =~= s@.skip(at as int));
    if same_chars(tail, p.as_slice()) {
        let rest = slice_subrange(s, 0, at);
        assert(rest@ =~= s@.take(at as int));
        Some(rest)
    } else {
        None
    }
}

/// Whether a text occurs in another from place `i` on.
pub open spec fn stands_at(s: Seq<char>, needle: Seq<char>, i: int) -> bool {
    0 <= i && i + needle.len() <= s.len() && s.subrange(i, i + needle.len()) == needle
}

/// Whether a text occurs anywhere in another.
pub open spec fn holds_text(s: Seq<char>, needle: Seq<char>) -> bool {
    exists|i: int| stands_at(s, needle, i)
}

/// Whether `needle` occurs anywhere in `s`.
pub fn contains_text(s: &str, needle: &str) -> (yes: bool)
    ensures
        yes == holds_text(s@, needle@),
{
    let all = chars_of(s);
    let part = chars_of(needle);
    if part.len() > all.len() {
        return false;
    }
    let n: usize = all.len();
    let last: usize = n - part.len();
    let mut i: usize = 0;
    while i < last
        invariant
            i <= last,
            n == all@.len(),
            last == n - part@.len(),
            all@ == s@,
            part@ == needle@,
            forall|k: int| 0 <= k < i ==> !stands_at(s@, needle@, k),
        decreases last - i,
    {
        let here = slice_subrange(all.as_slice(), i, i + part.len());
        if same_chars(here, part.as_slice()) {
            assert(stands_at(s@, needle@, i as int));
            return true;
        }
        i += 1;
    }
    let tail = slice_subrange(all.as_slice(), last, n);
    if same_chars(tail, part.as_slice()) {
        assert(stands_at(s@, needle@, last as int));
        return true;
    }
    false
}

/// A letter of the Latin alphabet in lower case; any other character as it is.
pub open spec fn ascii_lower(c: char) -> char {
    if 'A' <= c <= 'Z' {
        (c as u32 + 32) as char
    } else {
        c
    }
}

/// Whether two texts are the same but for the case of Latin letters.
pub open spec fn same_but_for_case(a: Seq<char>, b: Seq<char>) -> bool {
    a.len() == b.len() && forall|i: int|
        0 <= i < a.len() ==> ascii_lower(#[trigger] a[i]) == ascii_lower(b[i])
}

fn to_ascii_lower(c: char) -> (lower: char)
    ensures
        lower == ascii_lower(c),
{
    if 'A' <= c && c <= 'Z' {
        (c as u8 + 32) as char
    } else {
        c
    }
}

/// Whether two texts are the same but for the case of Latin letters.
pub fn same_ignoring_case(a: &str, b: &str) -> (same: bool)
    ensures
        same == same_but_for_case(a@, b@),
{
    let left = chars_of(a);
    let right = chars_of(b);
    if left.len() != right.len() {
        return false;
    }
    let mut i: usize = 0;
    while i < left.len()
        invariant
            i <= left@.len(),
            left@ == a@,
            right@ == b@,
            left@.len() == right@.len(),
            forall|k: int| 0 <= k < i ==> ascii_lower(#[trigger] a@[k]) == ascii_lower(b@[k]),
        decreases left@.len() - i,
    {
        if to_ascii_lower(left[i]) != to_ascii_lower(right[i]) {
            assert(a@[i as int] == left@[i as int]);
            return false;
        }
        i += 1;
    }
    true
}

/// A text without the white space at its start.
pub open spec fn trimmed_start(s: Seq<char>) -> Seq<char>
    decreases s.len(),
{
    if s.len() > 0 && is_space(s[0]) {
        trimmed_start(s.skip(1))
    } else {
        s
    }
}

/// A text without the white space at its end.
pub open spec fn trimmed_end(s: Seq<char>) -> Seq<char>
    decreases s.len(),
{
    if s.len() > 0 && is_space(s.last()) {
        trimmed_end(s.drop_last())
    } else {
        s
    }
}

/// A text without the white space around it.
pub fn trim(s: &str) -> (out: String)
    ensures
        out@ == trimmed_end(trimmed_start(s@)),
{
    let all = chars_of(s);
    let n: usize = all.len();
    let mut from: usize = 0;
    assert(s@.skip(0) =~= s@);
    while from < n && separates(all[from])
        invariant
            from <= n,
            n == all@.len(),
            all@ == s@,
            trimmed_start(s@.skip(from as int)) == trimmed_start(s@),
        decreases n - from,
    {
        assert(s@.skip(from as int).skip(1) =~= s@.skip(from + 1));
        from += 1;
    }
    let ghost rest = s@.skip(from as int);
    assert(trimmed_start(s@) == rest);
    let mut to: usize = n;
    assert(s@.subrange(from as int, n as int) =~= rest);
    while from < to && separates(all[to - 1])
        invariant
            from <= to <= n,
            n == all@.len(),
            all@ == s@,
            trimmed_end(s@.subrange(from as int, to as int)) == trimmed_end(rest),
        decreases to - from,
    {
        assert(s@.subrange(from as int, to as int).drop_last() =~= s@.subrange(
            from as int,
            to - 1,
        ));
        to -= 1;
    }
    text_of(slice_subrange(all.as_slice(), from, to))
}

/// A text out of its characters.
pub fn text_of(chars: &[char]) -> (s: String)
    ensures
        s@ == chars@,
{
    let mut s = String::new();
    let mut i: usize = 0;
    while i < chars.len()
        invariant
            i <= chars@.len(),
            s@ == chars@.take(i as int),
        decreases chars@.len() - i,
    {
        s.push(chars[i]);
        assert(chars@.take(i + 1) =~= chars@.take(i as int).push(chars@[i as int]));
        i += 1;
    }
    assert(chars@.take(chars@.len() as int) =~= chars@);
    s
}

/// The characters that separate words.
pub open spec fn is_space(c: char) -> bool {
    let u = c as u32;
    0x09 <= u <= 0x0D || u == 0x20 || u == 0x85 || u == 0xA0 || u == 0x1680 || 0x2000 <= u
        <= 0x200A || u == 0x2028 || u == 0x2029 || u == 0x202F || u == 0x205F || u == 0x3000
}

fn separates(c: char) -> (yes: bool)
    ensures
        yes == is_space(c),
{
    let u: u32 = c as u32;
    (0x09 <= u && u <= 0x0D) || u == 0x20 || u == 0x85 || u == 0xA0 || u == 0x1680 || (0x2000 <= u
        && u <= 0x200A) || u == 0x2028 || u == 0x2029 || u == 0x202F || u == 0x205F || u == 0x3000
}

/// The end of the run of separators, or of other characters, that starts at `i`.
pub open spec fn run_end(s: Seq<char>, i: int, spaces: bool) -> int
    decreases s.len() - i,
{
    if i < 0 || i >= s.len() || is_space(s[i]) != spaces {
        i
    } else {
        run_end(s, i + 1, spaces)
    }
}

/// A run ends inside the text, not in front of where it starts.
pub proof fn run_end_bounds(s: Seq<char>, i: int, spaces: bool)
    requires
        0 <= i <= s.len(),
    ensures
        i <= run_end(s, i, spaces) <= s.len(),
        i < s.len() && is_space(s[i]) == spaces ==> i < run_end(s, i, spaces),
    decreases s.len() - i,
{
    if i < s.len() && is_space(s[i]) == spaces {
        run_end_bounds(s, i + 1, spaces);
    }
}

/// The word `n` places behind the first one from `i` on.
pub open spec fn nth_word(s: Seq<char>, i: int, n: nat) -> Option<Seq<char>>
    decreases n,
{
    let start = run_end(s, i, true);
    let end = run_end(s, start, false);
    if start >= s.len() {
        None
    } else if n == 0 {
        Some(s.subrange(start, end))
    } else {
        nth_word(s, end, (n - 1) as nat)
    }
}

fn find_run_end(s: &[char], from: usize, spaces: bool) -> (end: usize)
    requires
        from <= s@.len(),
    ensures
        end == run_end(s@, from as int, spaces),
        from <= end <= s@.len(),
{
    let mut i: usize = from;
    while i < s.len() && separates(s[i]) == spaces
        invariant
            from <= i <= s@.len(),
            run_end(s@, from as int, spaces) == run_end(s@, i as int, spaces),
        decreases s@.len() - i,
    {
        i += 1;
    }
    i
}

/// Finds a word by its place.
pub fn find_word(s: &[char], n: usize) -> (word: Option<&[char]>)
    ensures
        match (word, nth_word(s@, 0, n as nat)) {
            (Some(w), Some(t)) => w@ == t,
            (None, None) => true,
            _ => false,
        },
{
    let mut i: usize = 0;
    let mut left: usize = n;
    loop
        invariant
            i <= s@.len(),
            nth_word(s@, 0, n as nat) == nth_word(s@, i as int, left as nat),
        decreases left,
    {
        let start: usize = find_run_end(s, i, true);
        if start >= s.len() {
            return None;
        }
        let end: usize = find_run_end(s, start, false);
        if left == 0 {
            return Some(slice_subrange(s, start, end));
        }
        i = end;
        left -= 1;
    }
}

/// Where a character last stands.
pub open spec fn last_place(s: Seq<char>, c: char) -> Option<int>
    decreases s.len(),
{
    if s.len() == 0 {
        None
    } else if s.last() == c {
        Some(s.len() - 1)
    } else {
        last_place(s.drop_last(), c)
    }
}

/// Finds the last place of a character.
pub fn find_last_char(s: &[char], c: char) -> (place: Option<usize>)
    ensures
        match (place, last_place(s@, c)) {
            (Some(i), Some(j)) => i == j && i < s@.len(),
            (None, None) => true,
            _ => false,
        },
{
    let mut i: usize = s.len();
    assert(s@.take(s@.len() as int) =~= s@);
    while i > 0
        invariant
            i <= s@.len(),
            last_place(s@, c) == last_place(s@.take(i as int), c),
        decreases i,
    {
        assert(s@.take(i as int).drop_last() =~= s@.take(i - 1));
        if s[i - 1] == c {
            return Some(i - 1);
        }
        i -= 1;
    }
    None
}

/// A number in decimal is made of digits, has no needless zero in front, and reads back as itself,
/// or not at all where it is too large.
pub proof fn decimals_read_back(n: nat, max: nat)
    ensures
        decimal(n).len() > 0,
        all_digits(decimal(n)),
        n > 0 ==> decimal(n)[0] != '0',
        digits_value(decimal(n)) == n,
        n <= max ==> number_of(decimal(n), max) == Some(n),
        n > max ==> number_of(decimal(n), max) is None,
    decreases n,
{
    let s = decimal(n);
    if n < 10 {
        assert(s.drop_last() =~= Seq::<char>::empty());
        reveal_with_fuel(digits_value, 2);
    } else {
        decimals_read_back(n / 10, max);
        assert(s.drop_last() =~= decimal(n / 10));
        assert forall|i: int| 0 <= i < s.len() implies is_digit(#[trigger] s[i]) by {
            if i < s.len() - 1 {
                assert(s[i] == decimal(n / 10)[i]);
            }
        }
        assert(s[0] == decimal(n / 10)[0]);
    }
    assert(is_digit(s[0]));
}

/// The last place of a character is what it says: the character stands there, and nowhere behind.
pub proof fn last_place_is_last(front: Seq<char>, c: char, back: Seq<char>)
    requires
        !back.contains(c),
    ensures
        last_place(front + seq![c] + back, c) == Some(front.len() as int),
        last_place(back, c) is None,
    decreases back.len(),
{
    let all = front + seq![c] + back;
    if back.len() > 0 {
        let shorter = back.drop_last();
        assert(back.contains(back.last()));
        assert(!shorter.contains(c)) by {
            if shorter.contains(c) {
                let k = choose|k: int| 0 <= k < shorter.len() && shorter[k] == c;
                assert(back[k] == c);
            }
        }
        assert(all.drop_last() =~= front + seq![c] + shorter);
        last_place_is_last(front, c, shorter);
    } else {
        assert(all.drop_last() =~= front);
    }
}

/// Words with a space in front of each.
pub open spec fn spaced(words: Seq<Seq<char>>) -> Seq<char>
    decreases words.len(),
{
    if words.len() == 0 {
        Seq::empty()
    } else {
        seq![' '] + words[0] + spaced(words.skip(1))
    }
}

/// Whether a text is a word: not empty, and without separators.
pub open spec fn is_word(s: Seq<char>) -> bool {
    &&& s.len() > 0
    &&& forall|i: int| 0 <= i < s.len() ==> !is_space(#[trigger] s[i])
}

pub open spec fn are_words(words: Seq<Seq<char>>) -> bool {
    forall|k: int| 0 <= k < words.len() ==> is_word(#[trigger] words[k])
}

proof fn run_ends_at(s: Seq<char>, i: int, end: int, spaces: bool)
    requires
        0 <= i <= end <= s.len(),
        forall|k: int| i <= k < end ==> is_space(#[trigger] s[k]) == spaces,
        end < s.len() ==> is_space(s[end]) != spaces,
    ensures
        run_end(s, i, spaces) == end,
    decreases end - i,
{
    if i < end {
        assert(is_space(s[i]) == spaces);
        run_ends_at(s, i + 1, end, spaces);
    }
}

/// Words are counted from the front, and a text has no more words than it has.
pub proof fn words_are_counted(front: Seq<char>, words: Seq<Seq<char>>, n: nat)
    requires
        are_words(words),
    ensures
        n < words.len() ==> nth_word(front + spaced(words), front.len() as int, n) == Some(
            words[n as int],
        ),
        n >= words.len() ==> nth_word(front + spaced(words), front.len() as int, n) is None,
    decreases words.len(),
{
    let all = front + spaced(words);
    let p = front.len() as int;
    if words.len() == 0 {
        run_ends_at(all, p, p, true);
    } else {
        let first = words[0];
        let rest = words.skip(1);
        assert(is_word(words[0]));
        let q = p + 1;
        let r = (q + first.len()) as int;
        let start = front + seq![' '] + first;
        assert(all =~= start + spaced(rest));
        assert(all[p] == ' ');
        assert(forall|k: int| q <= k < r ==> #[trigger] all[k] == first[k - q]);
        assert forall|k: int| q <= k < r implies !is_space(#[trigger] all[k]) by {
            assert(!is_space(words[0][k - q]));
        }
        run_ends_at(all, p, q, true);
        if rest.len() > 0 {
            assert(spaced(rest)[0] == ' ');
        }
        run_ends_at(all, q, r, false);
        assert(all.subrange(q, r) =~= first);
        assert forall|k: int| 0 <= k < rest.len() implies is_word(#[trigger] rest[k]) by {
            assert(is_word(words[k + 1]));
        }
        if n > 0 {
            words_are_counted(start, rest, (n - 1) as nat);
        }
    }
}

/// The first character in which two texts differ decides which comes first, and a text comes before
/// every longer one that starts with it.
pub proof fn the_first_difference_decides(
    common: Seq<char>,
    a: Seq<char>,
    b: Seq<char>,
)
    ensures
        a.len() > 0 && b.len() > 0 && a[0] < b[0] ==> text_le(common + a, common + b) && !text_le(
            common + b,
            common + a,
        ),
        text_le(common, common + b),
        b.len() > 0 ==> !text_le(common + b, common),
    decreases common.len(),
{
    if common.len() > 0 {
        let rest = common.skip(1);
        the_first_difference_decides(rest, a, b);
        assert((common + a).skip(1) =~= rest + a);
        assert((common + b).skip(1) =~= rest + b);
    } else {
        assert(common + a =~= a);
        assert(common + b =~= b);
    }
}

/// Trimming takes away all white space around a text and nothing else: a text that neither starts
/// nor ends with white space stays, whatever white space stood around it.
pub proof fn trimming_keeps_the_middle(before: Seq<char>, s: Seq<char>, behind: Seq<char>)
    requires
        forall|i: int| 0 <= i < before.len() ==> is_space(#[trigger] before[i]),
        forall|i: int| 0 <= i < behind.len() ==> is_space(#[trigger] behind[i]),
        s.len() > 0,
        !is_space(s[0]),
        !is_space(s.last()),
    ensures
        trimmed_end(trimmed_start(before + s + behind)) == s,
{
    trimming_the_start(before, s + behind);
    assert(before + s + behind =~= before + (s + behind));
    trimming_the_end(s, behind);
}

proof fn trimming_the_start(before: Seq<char>, s: Seq<char>)
    requires
        forall|i: int| 0 <= i < before.len() ==> is_space(#[trigger] before[i]),
        s.len() > 0,
        !is_space(s[0]),
    ensures
        trimmed_start(before + s) == s,
    decreases before.len(),
{
    if before.len() > 0 {
        let rest = before.skip(1);
        assert((before + s)[0] == before[0]);
        assert forall|i: int| 0 <= i < rest.len() implies is_space(#[trigger] rest[i]) by {
            assert(is_space(before[i + 1]));
        }
        assert((before + s).skip(1) =~= rest + s);
        trimming_the_start(rest, s);
    } else {
        assert(before + s =~= s);
    }
}

proof fn trimming_the_end(s: Seq<char>, behind: Seq<char>)
    requires
        forall|i: int| 0 <= i < behind.len() ==> is_space(#[trigger] behind[i]),
        s.len() > 0,
        !is_space(s.last()),
    ensures
        trimmed_end(s + behind) == s,
    decreases behind.len(),
{
    if behind.len() > 0 {
        let rest = behind.drop_last();
        assert((s + behind).last() == behind[behind.len() - 1]);
        assert((s + behind).drop_last() =~= s + rest);
        trimming_the_end(s, rest);
    } else {
        assert(s + behind =~= s);
    }
}

/// A text occurs in another exactly where the other is something before it, the text itself, and
/// something behind it.
pub proof fn texts_occur_in_what_holds_them(before: Seq<char>, s: Seq<char>, behind: Seq<char>)
    ensures
        holds_text(before + s + behind, s),
        !holds_text(s, s.push('x')),
{
    let all = before + s + behind;
    assert(all.subrange(before.len() as int, (before.len() + s.len()) as int) =~= s);
    assert(stands_at(all, s, before.len() as int));
}

proof fn units_from(units: Seq<u16>, i: int, j: int)
    requires
        0 <= i,
        0 <= j <= units.len(),
        i + j <= units.len(),
    ensures
        text_of_utf16(units, i + j) == text_of_utf16(units.skip(j), i),
    decreases units.len() - i - j,
{
    let rest = units.skip(j);
    if i + j < units.len() {
        assert(rest[i] == units[i + j]);
        if i + j + 1 < units.len() {
            assert(rest[i + 1] == units[i + 1 + j]);
            units_from(units, i + 1, j);
            if i + j + 2 <= units.len() {
                units_from(units, i + 2, j);
            }
        } else {
            units_from(units, i + 1, j);
        }
    }
}

/// A unit of UTF-16 that is no surrogate is a character by itself. A high surrogate and a low one
/// are one character together, beyond the first sixty-five thousand, with ten bits from each. A
/// surrogate without its partner is the replacement character, and takes nothing with it.
pub proof fn units_spell_characters(unit: u16, next: u16, rest: Seq<u16>)
    ensures
        !(0xD800 <= unit <= 0xDFFF) ==> text_of_utf16(seq![unit] + rest, 0) == seq![unit as char]
            + text_of_utf16(rest, 0),
        0xD800 <= unit <= 0xDBFF && 0xDC00 <= next <= 0xDFFF ==> text_of_utf16(
            seq![unit, next] + rest,
            0,
        ) == seq![(0x1_0000 + (unit - 0xD800) * 0x400 + (next - 0xDC00)) as char] + text_of_utf16(
            rest,
            0,
        ),
        0xDC00 <= unit <= 0xDFFF ==> text_of_utf16(seq![unit] + rest, 0) == seq!['\u{FFFD}']
            + text_of_utf16(rest, 0),
        0xD800 <= unit <= 0xDBFF && !(0xDC00 <= next <= 0xDFFF) ==> text_of_utf16(
            seq![unit, next] + rest,
            0,
        ) == seq!['\u{FFFD}'] + text_of_utf16(seq![next] + rest, 0),
        0xD800 <= unit <= 0xDBFF ==> text_of_utf16(seq![unit], 0) == seq!['\u{FFFD}'],
{
    let one = seq![unit] + rest;
    let two = seq![unit, next] + rest;
    assert(one.skip(1) =~= rest);
    assert(two.skip(2) =~= rest);
    assert(two.skip(1) =~= seq![next] + rest);
    units_from(one, 0, 1);
    units_from(two, 0, 2);
    units_from(two, 0, 1);
    let alone = seq![unit];
    assert(seq!['\u{FFFD}'] + text_of_utf16(alone, 1) =~= seq!['\u{FFFD}']);
}

/// A number is digits, at least one, with a plus sign in front or not, and nothing else.
pub proof fn numbers_are_digits(s: Seq<char>, max: nat, i: int)
    ensures
        s.len() == 0 ==> number_of(s, max) is None,
        all_digits(s) ==> number_of(seq!['+'] + s, max) == number_of(s, max),
        0 < i < s.len() && !is_digit(s[i]) ==> number_of(s, max) is None,
        s.len() > 0 && s[0] != '+' && !is_digit(s[0]) ==> number_of(s, max) is None,
        number_of(s, max) matches Some(n) ==> n <= max,
{
    let plus = seq!['+'] + s;
    assert(plus.skip(1) =~= s);
    if all_digits(s) && s.len() > 0 {
        assert(is_digit(s[0]));
    }
    if 0 < i < s.len() && !is_digit(s[i]) {
        assert(s.skip(1)[i - 1] == s[i]);
    }
}

/// A negative number has a minus sign in front of its size, and any other none.
pub proof fn negative_numbers_have_a_sign(n: nat)
    ensures
        signed_decimal(n as int) == decimal(n),
        n > 0 ==> signed_decimal(-n) == seq!['-'] + decimal(n),
{
}

} // verus!
