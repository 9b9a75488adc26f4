//! Numbers as text: decimal notation, parsing, and hexadecimal bytes.
use vstd::prelude::*;
use crate::text;

verus! {

/// The decimal digit of a value below ten.
pub open spec fn digit(d: int) -> char {
    ('0' as int + d) as char
}

/// A natural number in decimal notation without leading zeros.
pub open spec fn decimal(n: nat) -> Seq<char>
    decreases n,
{
    if n < 10 {
        seq![digit(n as int)]
    } else {
        decimal(n / 10).push(digit((n % 10) as int))
    }
}

/// An integer in decimal notation, with a minus sign where it is negative.
pub open spec fn signed_decimal(i: int) -> Seq<char> {
    if i < 0 {
        seq!['-'] + decimal((-i) as nat)
    } else {
        decimal(i as nat)
    }
}

/// Whether a character is an ASCII decimal digit.
pub open spec fn is_digit(c: char) -> bool {
    '0' <= c <= '9'
}

/// The number that a sequence of decimal digits denotes.
pub open spec fn digits_value(s: Seq<char>) -> nat
    decreases s.len(),
{
    if s.len() == 0 {
        0
    } else {
        digits_value(s.drop_last()) * 10 + (s.last() as int - '0' as int) as nat
    }
}

/// Whether a text is one or more decimal digits.
pub open spec fn all_digits(s: Seq<char>) -> bool {
    &&& s.len() > 0
    &&& forall|i: int| 0 <= i < s.len() ==> is_digit(#[trigger] s[i])
}

/// The value of an unsigned number in text: digits with an optional plus sign.
pub open spec fn unsigned_value(s: Seq<char>) -> Option<int> {
    let body = if s.len() > 0 && s[0] == '+' {
        s.drop_first()
    } else {
        s
    };
    if all_digits(body) {
        Some(digits_value(body) as int)
    } else {
        None
    }
}

/// The value of a signed number in text: digits with an optional sign.
pub open spec fn signed_value(s: Seq<char>) -> Option<int> {
    if s.len() > 0 && s[0] == '-' {
        if all_digits(s.drop_first()) {
            Some(-(digits_value(s.drop_first()) as int))
        } else {
            None
        }
    } else {
        unsigned_value(s)
    }
}

/// A value that lies within bounds, or nothing.
pub open spec fn within(v: Option<int>, low: int, high: int) -> Option<int> {
    match v {
        Some(n) => if low <= n <= high {
            Some(n)
        } else {
            None
        },
        None => None,
    }
}

/// The integer inside an optional machine integer.
pub open spec fn opt_i64(v: Option<i64>) -> Option<int> {
    match v {
        Some(n) => Some(n as int),
        None => None,
    }
}

/// The integer inside an optional machine integer.
pub open spec fn opt_u64(v: Option<u64>) -> Option<int> {
    match v {
        Some(n) => Some(n as int),
        None => None,
    }
}

/// The integer inside an optional machine integer.
pub open spec fn opt_i128(v: Option<i128>) -> Option<int> {
    match v {
        Some(n) => Some(n as int),
        None => None,
    }
}

/// The integer inside an optional machine integer.
pub open spec fn opt_u128(v: Option<u128>) -> Option<int> {
    match v {
        Some(n) => Some(n as int),
        None => None,
    }
}

/// The lower-case hexadecimal digit of a value below sixteen.
pub open spec fn hex_digit(d: int) -> char {
    if d < 10 {
        ('0' as int + d) as char
    } else {
        ('a' as int + (d - 10)) as char
    }
}

/// Bytes in lower-case hexadecimal, two digits each.
pub open spec fn hex(bytes: Seq<u8>) -> Seq<char> {
    Seq::new(
        2 * bytes.len(),
        |i: int|
            if i % 2 == 0 {
                hex_digit(bytes[i / 2] as int / 16)
            } else {
                hex_digit(bytes[i / 2] as int % 16)
            },
    )
}

/// The value of a hexadecimal digit of either case.
pub open spec fn hex_value(c: char) -> Option<int> {
    if '0' <= c <= '9' {
        Some(c as int - '0' as int)
    } else if 'a' <= c <= 'f' {
        Some(c as int - 'a' as int + 10)
    } else if 'A' <= c <= 'F' {
        Some(c as int - 'A' as int + 10)
    } else {
        None
    }
}

/// The byte that two characters denote: two hexadecimal digits, or a plus sign and one.
pub open spec fn pair_value(a: char, b: char) -> Option<int> {
    match (hex_value(a), hex_value(b)) {
        (Some(x), Some(y)) => Some(16 * x + y),
        (None, Some(y)) => if a == '+' {
            Some(y)
        } else {
            None
        },
        _ => None,
    }
}

/// Whether a text is a sequence of character pairs that each denote a byte.
pub open spec fn is_hex(s: Seq<char>) -> bool {
    &&& s.len() % 2 == 0
    &&& forall|i: int|
        0 <= i < s.len() / 2 ==> (#[trigger] pair_value(s[2 * i], s[2 * i + 1])) is Some
}

/// The bytes that a text of character pairs denotes.
pub open spec fn unhex(s: Seq<char>) -> Seq<u8> {
    Seq::new(s.len() / 2, |i: int| pair_value(s[2 * i], s[2 * i + 1])->0 as u8)
}

/// Decoding the hexadecimal form of bytes gives the bytes back.
pub proof fn lemma_unhex_hex(bytes: Seq<u8>)
    ensures
        is_hex(hex(bytes)),
        unhex(hex(bytes)) == bytes,
{
    let s = hex(bytes);
    assert forall|i: int| 0 <= i < s.len() / 2 implies (#[trigger] pair_value(
        s[2 * i],
        s[2 * i + 1],
    )) == Some(bytes[i] as int) by {
        let b = bytes[i] as int;
        assert(s[2 * i] == hex_digit(b / 16));
        assert(s[2 * i + 1] == hex_digit(b % 16));
        assert(0 <= b / 16 < 16);
        assert(16 * (b / 16) + b % 16 == b);
    }
    assert(unhex(s) =~= bytes);
}

/// Hexadecimal text is made of ASCII letters and digits only.
pub proof fn lemma_hex_chars(bytes: Seq<u8>)
    ensures
        forall|i: int|
            0 <= i < hex(bytes).len() ==> is_digit(#[trigger] hex(bytes)[i]) || 'a' <= hex(bytes)[i]
                <= 'f',
{
}

proof fn lemma_value_prefix(s: Seq<char>, i: int)
    requires
        all_digits(s),
        0 <= i <= s.len(),
    ensures
        digits_value(s.take(i)) <= digits_value(s),
    decreases s.len() - i,
{
    if i < s.len() {
        lemma_value_prefix(s, i + 1);
        let next = s.take(i + 1);
        assert(next.drop_last() =~= s.take(i));
        assert(is_digit(s[i]));
    } else {
        assert(s.take(i) =~= s);
    }
}

/// Decimal notation is made of digits and denotes the number.
pub proof fn lemma_decimal(n: nat)
    ensures
        all_digits(decimal(n)),
        digits_value(decimal(n)) == n,
    decreases n,
{
    if n < 10 {
        let s = decimal(n);
        assert(s.drop_last() =~= Seq::<char>::empty());
        assert(digits_value(s.drop_last()) == 0);
    } else {
        lemma_decimal(n / 10);
        let s = decimal(n);
        assert(s.drop_last() =~= decimal(n / 10));
        assert forall|i: int| 0 <= i < s.len() implies is_digit(#[trigger] s[i]) by {
            if i < s.len() - 1 {
                assert(s[i] == decimal(n / 10)[i]);
            }
        }
    }
}

/// Parsing the decimal notation of an integer gives the integer back.
pub proof fn law_written_numbers_are_read_back(i: int)
    ensures
        signed_value(signed_decimal(i)) == Some(i),
{
    if i < 0 {
        lemma_decimal((-i) as nat);
        assert(signed_decimal(i).drop_first() =~= decimal((-i) as nat));
    } else {
        lemma_decimal(i as nat);
        assert(is_digit(decimal(i as nat)[0]));
    }
}

fn digit_char(d: u8) -> (res: char)
    requires
        d < 10,
    ensures
        res == digit(d as int),
{
    (48u8 + d) as char
}

/// A number in decimal notation.
pub fn decimal_text(n: u128) -> (res: String)
    ensures
        res@ == decimal(n as nat),
    decreases n,
{
    if n < 10 {
        let mut s = String::new();
        s.push(digit_char(n as u8));
        assert(s@ =~= decimal(n as nat));
        s
    } else {
        let mut s = decimal_text(n / 10);
        s.push(digit_char((n % 10) as u8));
        s
    }
}

/// An unsigned number in decimal notation.
pub fn u64_text(n: u64) -> (res: String)
    ensures
        res@ == signed_decimal(n as int),
{
    decimal_text(n as u128)
}

/// A signed number in decimal notation.
pub fn i64_text(n: i64) -> (res: String)
    ensures
        res@ == signed_decimal(n as int),
{
    if n < 0 {
        let mut s = text::copy("-");
        proof {
            reveal_strlit("-");
        }
        let m: i128 = -(n as i128);
        let t = decimal_text(m as u128);
        s.append(t.as_str());
        assert(s@ =~= signed_decimal(n as int));
        s
    } else {
        decimal_text(n as u128)
    }
}

/// A signed number in decimal notation.
pub fn i128_text(n: i128) -> (res: String)
    ensures
        res@ == signed_decimal(n as int),
{
    if n < 0 {
        let mut s = text::copy("-");
        proof {
            reveal_strlit("-");
        }
        let m: u128 = (-(n + 1)) as u128 + 1;
        let t = decimal_text(m);
        s.append(t.as_str());
        assert(s@ =~= signed_decimal(n as int));
        s
    } else {
        decimal_text(n as u128)
    }
}

fn parse_digits(chars: &Vec<char>, from: usize) -> (res: Option<u128>)
    requires
        from <= chars@.len(),
    ensures
        opt_u128(res) == within(
            if all_digits(chars@.skip(from as int)) {
                Some(digits_value(chars@.skip(from as int)) as int)
            } else {
                None
            },
            0,
            u128::MAX as int,
        ),
{
    let ghost body = chars@.skip(from as int);
    let n = chars.len();
    if from == n {
        return None;
    }
    let mut k: usize = from;
    while k < n
        invariant
            n == chars@.len(),
            from <= k <= n,
            body == chars@.skip(from as int),
            forall|j: int| 0 <= j < k - from ==> is_digit(#[trigger] body[j]),
        decreases n - k,
    {
        let c = chars[k];
        assert(body[k - from] == c);
        if c < '0' || c > '9' {
            assert(!is_digit(body[k - from]));
            return None;
        }
        k += 1;
    }
    assert(all_digits(body));
    let mut value: u128 = 0;
    let mut i: usize = from;
    assert(body.take(0) =~= Seq::<char>::empty());
    while i < n
        invariant
            n == chars@.len(),
            from <= i <= n,
            body == chars@.skip(from as int),
            all_digits(body),
            value == digits_value(body.take(i - from)),
        decreases n - i,
    {
        let c = chars[i];
        assert(body[i - from] == c);
        assert(is_digit(c));
        let d: u128 = (c as u8 - 48u8) as u128;
        let ghost next = body.take(i - from + 1);
        proof {
            assert(next.drop_last() =~= body.take(i - from));
            assert(next.last() == c);
            assert(digits_value(next) == value * 10 + d);
            lemma_value_prefix(body, i - from + 1);
        }
        match value.checked_mul(10) {
            Some(m) => match m.checked_add(d) {
                Some(v) => {
                    value = v;
                },
                None => {
                    return None;
                },
            },
            None => {
                return None;
            },
        }
        i += 1;
    }
    assert(body.take(n - from) =~= body);
    Some(value)
}

/// An unsigned number from text, as `u128` parsing accepts it.
pub fn parse_u128(s: &str) -> (res: Option<u128>)
    ensures
        opt_u128(res) == within(unsigned_value(s@), 0, u128::MAX as int),
{
    let chars = text::chars_of(s);
    assert(chars@.skip(0) =~= s@);
    if chars.len() > 0 && chars[0] == '+' {
        assert(chars@.skip(1) =~= s@.drop_first());
        parse_digits(&chars, 1)
    } else {
        parse_digits(&chars, 0)
    }
}

/// An unsigned number from text, as `u64` parsing accepts it.
pub fn parse_u64(s: &str) -> (res: Option<u64>)
    ensures
        opt_u64(res) == within(unsigned_value(s@), 0, u64::MAX as int),
{
    match parse_u128(s) {
        Some(v) => if v <= u64::MAX as u128 {
            Some(v as u64)
        } else {
            None
        },
        None => None,
    }
}

/// A signed number from text, as `i128` parsing accepts it.
pub fn parse_i128(s: &str) -> (res: Option<i128>)
    ensures
        opt_i128(res) == within(signed_value(s@), i128::MIN as int, i128::MAX as int),
{
    let chars = text::chars_of(s);
    if chars.len() > 0 && chars[0] == '-' {
        assert(chars@.skip(1) =~= s@.drop_first());
        match parse_digits(&chars, 1) {
            Some(v) => {
                if v < 0x8000_0000_0000_0000_0000_0000_0000_0000u128 {
                    Some(-(v as i128))
                } else if v == 0x8000_0000_0000_0000_0000_0000_0000_0000u128 {
                    Some(i128::MIN)
                } else {
                    None
                }
            },
            None => None,
        }
    } else {
        match parse_u128(s) {
            Some(v) => if v <= i128::MAX as u128 {
                Some(v as i128)
            } else {
                None
            },
            None => None,
        }
    }
}

/// A signed number from text, as `i64` parsing accepts it.
pub fn parse_i64(s: &str) -> (res: Option<i64>)
    ensures
        opt_i64(res) == within(signed_value(s@), i64::MIN as int, i64::MAX as int),
{
    match parse_i128(s) {
        Some(v) => if i64::MIN as i128 <= v && v <= i64::MAX as i128 {
            Some(v as i64)
        } else {
            None
        },
        None => None,
    }
}

/// `hex::encode` writes each byte as two lower-case hexadecimal digits.
#[verifier::external_body]
pub(crate) fn hex_text(bytes: &[u8]) -> (res: String)
    ensures
        res@ == hex(bytes@),
{
    hex::encode(bytes)
}

fn hex_digit_value(c: char) -> (res: Option<u8>)
    ensures
        match res {
            Some(v) => hex_value(c) == Some(v as int) && v < 16,
            None => hex_value(c) is None,
        },
{
    if '0' <= c && c <= '9' {
        Some(c as u8 - 48u8)
    } else if 'a' <= c && c <= 'f' {
        Some(c as u8 - 97u8 + 10u8)
    } else if 'A' <= c && c <= 'F' {
        Some(c as u8 - 65u8 + 10u8)
    } else {
        None
    }
}

/// The bytes that a text of hexadecimal pairs denotes.
pub fn parse_hex(s: &str) -> (res: Option<Vec<u8>>)
    ensures
        res is Some <==> is_hex(s@),
        res matches Some(bytes) ==> bytes@ == unhex(s@),
{
    let chars = text::chars_of(s);
    let n = chars.len();
    if n % 2 != 0 {
        return None;
    }
    let mut out: Vec<u8> = Vec::new();
    let mut k: usize = 0;
    let half: usize = n / 2;
    while k < half
        invariant
            chars@ == s@,
            n == chars@.len(),
            n % 2 == 0,
            half == n / 2,
            k <= half,
            out@.len() == k,
            forall|i: int|
                0 <= i < k ==> (#[trigger] pair_value(s@[2 * i], s@[2 * i + 1])) == Some(
                    out@[i] as int,
                ),
        decreases half - k,
    {
        let a = chars[2 * k];
        let b = chars[2 * k + 1];
        let x = hex_digit_value(a);
        let y = hex_digit_value(b);
        let ghost pair = pair_value(s@[2 * (k as int)], s@[2 * (k as int) + 1]);
        match (x, y) {
            (Some(x), Some(y)) => {
                out.push(16 * x + y);
            },
            (None, Some(y)) => {
                if a == '+' {
                    out.push(y);
                } else {
                    assert(pair is None);
                    return None;
                }
            },
            _ => {
                assert(pair is None);
                return None;
            },
        }
        k += 1;
    }
    assert(out@ =~= unhex(s@)) by {
        assert forall|i: int| 0 <= i < half implies out@[i] == unhex(s@)[i] by {
            assert(pair_value(s@[2 * i], s@[2 * i + 1]) == Some(out@[i] as int));
        }
    }
    Some(out)
}

/// A number is read from digits alone, with at most one sign before them: any other character, or
/// nothing but a sign, is no number. A digit that is added at the end counts ones, and what stands
/// before it tens.
pub proof fn law_numbers_are_made_of_digits(s: Seq<char>, c: char)
    requires
        forall|i: int| 0 <= i < s.len() ==> is_digit(#[trigger] s[i]),
    ensures
        s.len() > 0 ==> unsigned_value(s) is Some && signed_value(s) == unsigned_value(s)
            && unsigned_value(seq!['+'] + s) == unsigned_value(s) && signed_value(seq!['+'] + s)
            == unsigned_value(s) && signed_value(seq!['-'] + s) == Some(-(unsigned_value(s)->0)),
        s.len() == 0 ==> unsigned_value(s) is None && signed_value(seq!['-'] + s) is None
            && unsigned_value(seq!['+'] + s) is None,
        !is_digit(c) && s.len() > 0 ==> unsigned_value(s.push(c)) is None && signed_value(s.push(c))
            is None,
        is_digit(c) ==> unsigned_value(s.push(c)) == Some(
            10 * (if s.len() > 0 {
                unsigned_value(s)->0
            } else {
                0
            }) + (c as int - '0' as int),
        ),
        unsigned_value(seq!['-'] + s) is None,
{
    assert((seq!['+'] + s).drop_first() =~= s);
    assert((seq!['-'] + s).drop_first() =~= s);
    assert(s.len() > 0 ==> is_digit(s[0]));
    let t = s.push(c);
    assert(t.drop_last() =~= s);
    assert(t[s.len() as int] == c);
    assert forall|i: int| 0 <= i < s.len() implies is_digit(#[trigger] t[i]) by {
        assert(t[i] == s[i]);
    }
    if is_digit(c) {
        assert forall|i: int| 0 <= i < t.len() implies is_digit(#[trigger] t[i]) by {}
        assert(all_digits(t));
        assert(is_digit(t[0]));
    } else if s.len() > 0 {
        assert(is_digit(t[0]));
        assert(!all_digits(t)) by {
            assert(!is_digit(t[s.len() as int]));
        }
    }
    assert(s.len() == 0 ==> digits_value(s) == 0);
    let m = seq!['-'] + s;
    assert(!is_digit(m[0]));
}

/// A number counts where it is within its bounds, and only there.
pub proof fn law_numbers_stay_within_their_bounds(v: Option<int>, low: int, high: int)
    ensures
        within(v, low, high) is Some <==> v is Some && low <= v->0 && v->0 <= high,
        within(v, low, high) is Some ==> within(v, low, high) == v,
{
}

/// Different numbers are written differently, and only zero begins with a zero.
pub proof fn law_numbers_are_written_in_one_way(n: nat)
    ensures
        decimal(n).len() > 0,
        n > 0 ==> decimal(n)[0] != '0',
        signed_value(decimal(n)) == Some(n as int),
    decreases n,
{
    law_written_numbers_are_read_back(n as int);
    if n >= 10 {
        law_numbers_are_written_in_one_way(n / 10);
        assert(decimal(n)[0] == decimal(n / 10)[0]);
    }
}

/// Bytes in hexadecimal take two characters each, and are read back.
pub proof fn law_hexadecimal_is_read_back(bytes: Seq<u8>)
    ensures
        hex(bytes).len() == 2 * bytes.len(),
        is_hex(hex(bytes)),
        unhex(hex(bytes)) == bytes,
        forall|i: int|
            0 <= i < hex(bytes).len() ==> is_digit(#[trigger] hex(bytes)[i]) || 'a' <= hex(bytes)[i]
                <= 'f',
{
    lemma_unhex_hex(bytes);
    lemma_hex_chars(bytes);
}

/// A pair of characters denotes a byte where both are digits of base sixteen, in either case, or the
/// first is a plus sign and the second such a digit.
pub proof fn law_pairs_denote_bytes(a: char, b: char, d: int)
    requires
        0 <= d < 16,
    ensures
        hex_value(hex_digit(d)) == Some(d),
        hex_value('A') == Some(10int) && hex_value('F') == Some(15int) && hex_value('a') == Some(
            10int,
        ),
        hex_value('g') is None && hex_value('G') is None && hex_value('+') is None && hex_value('/')
            is None && hex_value(':') is None && hex_value('@') is None && hex_value('`') is None,
        pair_value(a, b) is Some <==> hex_value(b) is Some && (hex_value(a) is Some || a == '+'),
        hex_value(a) is Some && hex_value(b) is Some ==> pair_value(a, b) == Some(
            16 * hex_value(a)->0 + hex_value(b)->0,
        ),
        a == '+' && hex_value(b) is Some ==> pair_value(a, b) == hex_value(b),
        hex_value(a) is Some ==> 0 <= hex_value(a)->0 < 16,
{
}

} // verus!
