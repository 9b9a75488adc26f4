//! Text operations on character sequences: searching, trimming, splitting, replacing and joining.
use vstd::prelude::*;
use vstd::string::*;
use vstd::utf8::*;

verus! {

/// `String::push` appends one character.
pub assume_specification[ String::push ](s: &mut String, c: char)
    ensures
        final(s)@ == old(s)@.push(c),
;

/// `String::from_utf8` accepts exactly the valid UTF-8 byte sequences and decodes them.
#[verifier::external_body]
pub(crate) fn string_from_utf8(bytes: Vec<u8>) -> (res: Option<String>)
    ensures
        res is Some <==> valid_utf8(bytes@),
        res matches Some(s) ==> s@ == decode_utf8(bytes@),
{
    String::from_utf8(bytes).ok()
}

/// Characters with the Unicode `White_Space` property.
pub open spec fn white(c: char) -> bool {
    ||| '\u{9}' <= c <= '\u{d}'
    ||| c == ' '
    ||| c == '\u{85}'
    ||| c == '\u{a0}'
    ||| c == '\u{1680}'
    ||| '\u{2000}' <= c <= '\u{200a}'
    ||| c == '\u{2028}'
    ||| c == '\u{2029}'
    ||| c == '\u{202f}'
    ||| c == '\u{205f}'
    ||| c == '\u{3000}'
}

/// Whether a character counts as white space.
pub fn is_white(c: char) -> (res: bool)
    ensures
        res == white(c),
{
    ('\u{9}' <= c && c <= '\u{d}') || c == ' ' || c == '\u{85}' || c == '\u{a0}' || c == '\u{1680}'
        || ('\u{2000}' <= c && c <= '\u{200a}') || c == '\u{2028}' || c == '\u{2029}' || c
        == '\u{202f}' || c == '\u{205f}' || c == '\u{3000}'
}

/// `s` without the longest prefix of characters that satisfy `p`.
pub open spec fn strip_start(s: Seq<char>, p: spec_fn(char) -> bool) -> Seq<char>
    decreases s.len(),
{
    if s.len() > 0 && p(s[0]) {
        strip_start(s.drop_first(), p)
    } else {
        s
    }
}

/// `s` without the longest suffix of characters that satisfy `p`.
pub open spec fn strip_end(s: Seq<char>, p: spec_fn(char) -> bool) -> Seq<char>
    decreases s.len(),
{
    if s.len() > 0 && p(s.last()) {
        strip_end(s.drop_last(), p)
    } else {
        s
    }
}

/// `s` without leading and trailing white space.
pub open spec fn trimmed(s: Seq<char>) -> Seq<char> {
    strip_end(strip_start(s, |c: char| white(c)), |c: char| white(c))
}

/// The test for being the character `c`.
pub open spec fn equals(c: char) -> spec_fn(char) -> bool {
    |x: char| x == c
}

/// `s` without leading and trailing occurrences of `c`.
pub open spec fn trimmed_of(s: Seq<char>, c: char) -> Seq<char> {
    strip_end(strip_start(s, equals(c)), equals(c))
}

/// Position of the first character that satisfies `p`, or the length of `s`.
pub open spec fn first_where(s: Seq<char>, p: spec_fn(char) -> bool) -> int
    decreases s.len(),
{
    if s.len() == 0 || p(s[0]) {
        0
    } else {
        1 + first_where(s.drop_first(), p)
    }
}

/// Position of the first `c` in `s`, or the length of `s`.
pub open spec fn find(s: Seq<char>, c: char) -> int {
    first_where(s, equals(c))
}

/// The part of `s` before the first `c`, and the part after it, if `c` occurs.
pub open spec fn split_once(s: Seq<char>, c: char) -> Option<(Seq<char>, Seq<char>)> {
    let i = find(s, c);
    if i < s.len() {
        Some((s.take(i), s.skip(i + 1)))
    } else {
        None
    }
}

/// The pieces of `s` between occurrences of `c`; there is always at least one.
pub open spec fn split(s: Seq<char>, c: char) -> Seq<Seq<char>>
    decreases s.len(),
    via split_terminates
{
    let i = find(s, c);
    if i < s.len() {
        seq![s.take(i)] + split(s.skip(i + 1), c)
    } else {
        seq![s]
    }
}

#[via_fn]
proof fn split_terminates(s: Seq<char>, c: char) {
    lemma_first_where(s, equals(c));
}

/// Whether `s` begins with `p`.
pub open spec fn begins(s: Seq<char>, p: Seq<char>) -> bool {
    p.len() <= s.len() && s.take(p.len() as int) == p
}

/// Whether `s` ends with `p`.
pub open spec fn ends(s: Seq<char>, p: Seq<char>) -> bool {
    p.len() <= s.len() && s.skip(s.len() - p.len()) == p
}

/// Whether `p` occurs in `s` at position `i`.
pub open spec fn occurs_at(s: Seq<char>, p: Seq<char>, i: int) -> bool {
    0 <= i && i + p.len() <= s.len() && s.subrange(i, i + p.len()) == p
}

/// Whether `p` occurs in `s`.
pub open spec fn occurs(s: Seq<char>, p: Seq<char>) -> bool {
    exists|i: int| occurs_at(s, p, i)
}

/// `s` with every occurrence of `p`, scanning from the left, replaced by `r`.
pub open spec fn replaced(s: Seq<char>, p: Seq<char>, r: Seq<char>) -> Seq<char>
    decreases s.len(),
{
    if s.len() == 0 || p.len() == 0 {
        s
    } else if begins(s, p) {
        r + replaced(s.skip(p.len() as int), p, r)
    } else {
        seq![s[0]] + replaced(s.drop_first(), p, r)
    }
}

/// Position of the first occurrence of `p` in `s`.
pub open spec fn find_text(s: Seq<char>, p: Seq<char>) -> Option<int>
    decreases s.len(),
{
    if begins(s, p) {
        Some(0)
    } else if s.len() == 0 {
        None
    } else {
        match find_text(s.drop_first(), p) {
            Some(i) => Some(i + 1),
            None => None,
        }
    }
}

/// The text after the last separator `p`, where separators are found from the left.
pub open spec fn last_piece(s: Seq<char>, p: Seq<char>) -> Seq<char>
    decreases s.len(),
    via last_piece_terminates
{
    match find_text(s, p) {
        Some(i) => if p.len() > 0 {
            last_piece(s.skip(i + p.len()), p)
        } else {
            s
        },
        None => s,
    }
}

#[via_fn]
proof fn last_piece_terminates(s: Seq<char>, p: Seq<char>) {
    lemma_find_text(s, p);
}

/// A position that is found holds an occurrence.
pub proof fn lemma_find_text(s: Seq<char>, p: Seq<char>)
    ensures
        find_text(s, p) matches Some(i) ==> 0 <= i && i + p.len() <= s.len(),
    decreases s.len(),
{
    if !begins(s, p) && s.len() > 0 {
        lemma_find_text(s.drop_first(), p);
    }
}

/// The pieces of `parts` with `sep` between neighbours.
pub open spec fn joined(parts: Seq<Seq<char>>, sep: Seq<char>) -> Seq<char>
    decreases parts.len(),
{
    if parts.len() == 0 {
        Seq::empty()
    } else if parts.len() == 1 {
        parts[0]
    } else {
        joined(parts.drop_last(), sep) + sep + parts.last()
    }
}

/// Order of texts by their characters, the shorter first where one begins the other.
pub open spec fn text_le(a: Seq<char>, b: Seq<char>) -> bool
    decreases a.len(),
{
    if a.len() == 0 {
        true
    } else if b.len() == 0 {
        false
    } else if a[0] == b[0] {
        text_le(a.drop_first(), b.drop_first())
    } else {
        a[0] < b[0]
    }
}

/// `c` with an ASCII capital letter turned into its small letter.
pub open spec fn lower(c: char) -> char {
    if 'A' <= c <= 'Z' {
        (c as u32 + 32) as char
    } else {
        c
    }
}

/// `s` with every ASCII capital letter turned into its small letter.
pub open spec fn lowered(s: Seq<char>) -> Seq<char> {
    s.map_values(|c: char| lower(c))
}

pub proof fn lemma_first_where(s: Seq<char>, p: spec_fn(char) -> bool)
    ensures
        0 <= first_where(s, p) <= s.len(),
        first_where(s, p) < s.len() ==> p(s[first_where(s, p)]),
        forall|j: int| 0 <= j < first_where(s, p) ==> !p(#[trigger] s[j]),
    decreases s.len(),
{
    if s.len() > 0 && !p(s[0]) {
        lemma_first_where(s.drop_first(), p);
        assert forall|j: int| 0 <= j < first_where(s, p) implies !p(#[trigger] s[j]) by {
            if j > 0 {
                assert(s[j] == s.drop_first()[j - 1]);
            }
        }
    }
}

/// A position with no earlier match is the first match.
pub proof fn lemma_first_where_is(s: Seq<char>, p: spec_fn(char) -> bool, i: int)
    requires
        0 <= i <= s.len(),
        i < s.len() ==> p(s[i]),
        forall|j: int| 0 <= j < i ==> !p(#[trigger] s[j]),
    ensures
        first_where(s, p) == i,
{
    lemma_first_where(s, p);
    let k = first_where(s, p);
    if k < i {
        assert(p(s[k]));
    }
    if i < k {
        assert(p(s[i]));
    }
}

/// Stripping keeps the text from the first character that does not satisfy `p`.
pub proof fn lemma_strip_start(s: Seq<char>, p: spec_fn(char) -> bool, i: int)
    requires
        0 <= i <= s.len(),
        i < s.len() ==> !p(s[i]),
        forall|j: int| 0 <= j < i ==> p(#[trigger] s[j]),
    ensures
        strip_start(s, p) == s.skip(i),
    decreases i,
{
    if i == 0 {
        assert(s.skip(0) =~= s);
    } else {
        assert(p(s[0]));
        let t = s.drop_first();
        assert forall|j: int| 0 <= j < i - 1 implies p(#[trigger] t[j]) by {
            assert(t[j] == s[j + 1]);
        }
        lemma_strip_start(t, p, i - 1);
        assert(t.skip(i - 1) =~= s.skip(i));
    }
}

/// Stripping keeps the text up to the last character that does not satisfy `p`.
pub proof fn lemma_strip_end(s: Seq<char>, p: spec_fn(char) -> bool, i: int)
    requires
        0 <= i <= s.len(),
        i > 0 ==> !p(s[i - 1]),
        forall|j: int| i <= j < s.len() ==> p(#[trigger] s[j]),
    ensures
        strip_end(s, p) == s.take(i),
    decreases s.len() - i,
{
    if i == s.len() {
        assert(s.take(i) =~= s);
    } else {
        assert(p(s[s.len() - 1]));
        let t = s.drop_last();
        lemma_strip_end(t, p, i);
        assert(t.take(i) =~= s.take(i));
    }
}

/// The characters of a text, in order.
pub fn chars_of(s: &str) -> (res: Vec<char>)
    ensures
        res@ == s@,
{
    let mut out: Vec<char> = Vec::new();
    for c in it: s.chars()
        invariant
            out@ == it.seq().take(it.index()),
            it.seq() == s@,
    {
        out.push(c);
    }
    assert(out@ =~= s@);
    out
}

/// The text made of the characters `from..to`.
pub fn text_of(chars: &Vec<char>, from: usize, to: usize) -> (res: String)
    requires
        from <= to <= chars@.len(),
    ensures
        res@ == chars@.subrange(from as int, to as int),
{
    let mut out = String::new();
    let mut i: usize = from;
    assert(out@ =~= chars@.subrange(from as int, from as int));
    while i < to
        invariant
            from <= i <= to <= chars@.len(),
            out@ == chars@.subrange(from as int, i as int),
        decreases to - i,
    {
        out.push(chars[i]);
        i += 1;
        assert(out@ =~= chars@.subrange(from as int, i as int));
    }
    out
}

/// Whether two texts are the same.
pub fn same(a: &str, b: &str) -> (res: bool)
    ensures
        res == (a@ == b@),
{
    let x = chars_of(a);
    let y = chars_of(b);
    if x.len() != y.len() {
        return false;
    }
    let mut i: usize = 0;
    while i < x.len()
        invariant
            x@ == a@,
            y@ == b@,
            x@.len() == y@.len(),
            i <= x@.len(),
            forall|j: int| 0 <= j < i ==> x@[j] == y@[j],
        decreases x@.len() - i,
    {
        if x[i] != y[i] {
            return false;
        }
        i += 1;
    }
    assert(x@ =~= y@);
    true
}

/// Whether a text has no characters.
pub fn is_empty(s: &str) -> (res: bool)
    ensures
        res == (s@.len() == 0),
{
    s.unicode_len() == 0
}

/// A copy of a text.
pub fn copy(s: &str) -> (res: String)
    ensures
        res@ == s@,
{
    s.to_owned()
}

/// The text without leading and trailing white space.
pub fn trim(s: &str) -> (res: String)
    ensures
        res@ == trimmed(s@),
{
    let chars = chars_of(s);
    let n = chars.len();
    let ghost p = |c: char| white(c);
    let mut a: usize = 0;
    while a < n && is_white(chars[a])
        invariant
            n == chars@.len(),
            a <= n,
            p == (|c: char| white(c)),
            forall|j: int| 0 <= j < a ==> p(#[trigger] chars@[j]),
        decreases n - a,
    {
        a += 1;
    }
    proof {
        lemma_strip_start(s@, p, a as int);
    }
    let ghost rest = s@.skip(a as int);
    let mut b: usize = n;
    while b > a && is_white(chars[b - 1])
        invariant
            n == chars@.len(),
            a <= b <= n,
            p == (|c: char| white(c)),
            rest == chars@.skip(a as int),
            forall|j: int| b - a <= j < rest.len() ==> p(#[trigger] rest[j]),
        decreases b,
    {
        b -= 1;
    }
    proof {
        lemma_strip_end(rest, p, b - a);
        assert(rest.take(b - a) =~= chars@.subrange(a as int, b as int));
    }
    text_of(&chars, a, b)
}

/// The text without leading and trailing occurrences of `c`.
pub fn trim_matches(s: &str, c: char) -> (res: String)
    ensures
        res@ == trimmed_of(s@, c),
{
    let chars = chars_of(s);
    let n = chars.len();
    let ghost p = equals(c);
    let mut a: usize = 0;
    while a < n && chars[a] == c
        invariant
            n == chars@.len(),
            a <= n,
            p == equals(c),
            forall|j: int| 0 <= j < a ==> p(#[trigger] chars@[j]),
        decreases n - a,
    {
        a += 1;
    }
    proof {
        lemma_strip_start(s@, p, a as int);
    }
    let ghost rest = s@.skip(a as int);
    let mut b: usize = n;
    while b > a && chars[b - 1] == c
        invariant
            n == chars@.len(),
            a <= b <= n,
            p == equals(c),
            rest == chars@.skip(a as int),
            forall|j: int| b - a <= j < rest.len() ==> p(#[trigger] rest[j]),
        decreases b,
    {
        b -= 1;
    }
    proof {
        lemma_strip_end(rest, p, b - a);
        assert(rest.take(b - a) =~= chars@.subrange(a as int, b as int));
    }
    text_of(&chars, a, b)
}

/// The text without trailing occurrences of `c`.
pub fn trim_end_matches(s: &str, c: char) -> (res: String)
    ensures
        res@ == strip_end(s@, equals(c)),
{
    let chars = chars_of(s);
    let n = chars.len();
    let ghost p = equals(c);
    let mut b: usize = n;
    while b > 0 && chars[b - 1] == c
        invariant
            n == chars@.len(),
            b <= n,
            p == equals(c),
            forall|j: int| b <= j < n ==> p(#[trigger] chars@[j]),
        decreases b,
    {
        b -= 1;
    }
    proof {
        lemma_strip_end(s@, p, b as int);
        assert(s@.take(b as int) =~= chars@.subrange(0, b as int));
    }
    text_of(&chars, 0, b)
}

/// Position of the first `c` at or after `from`, or the number of characters.
fn find_from(chars: &Vec<char>, from: usize, c: char) -> (res: usize)
    requires
        from <= chars@.len(),
    ensures
        from <= res <= chars@.len(),
        res - from == find(chars@.skip(from as int), c),
{
    let mut i: usize = from;
    let ghost rest = chars@.skip(from as int);
    let ghost p = equals(c);
    while i < chars.len() && chars[i] != c
        invariant
            from <= i <= chars@.len(),
            p == equals(c),
            rest == chars@.skip(from as int),
            forall|j: int| 0 <= j < i - from ==> !p(#[trigger] rest[j]),
        decreases chars@.len() - i,
    {
        assert(rest[i - from] == chars@[i as int]);
        i += 1;
    }
    proof {
        if i < chars.len() {
            assert(rest[i - from] == chars@[i as int]);
        }
        lemma_first_where_is(rest, p, i - from);
    }
    i
}

/// The parts of a text around the first `c`.
pub fn split_at_first(s: &str, c: char) -> (res: Option<(String, String)>)
    ensures
        res.deep_view() == split_once(s@, c),
{
    let chars = chars_of(s);
    let i = find_from(&chars, 0, c);
    assert(chars@.skip(0) =~= s@);
    if i < chars.len() {
        let left = text_of(&chars, 0, i);
        let right = text_of(&chars, i + 1, chars.len());
        assert(left@ =~= s@.take(i as int));
        assert(right@ =~= s@.skip(i + 1));
        Some((left, right))
    } else {
        None
    }
}

/// The text before the first `c`, or the whole text.
pub fn before_first(s: &str, c: char) -> (res: String)
    ensures
        res@ == s@.take(find(s@, c)),
        res@ == split(s@, c)[0],
{
    let chars = chars_of(s);
    let i = find_from(&chars, 0, c);
    assert(chars@.skip(0) =~= s@);
    let out = text_of(&chars, 0, i);
    assert(out@ =~= s@.take(i as int));
    proof {
        if i == chars@.len() {
            assert(s@.take(i as int) =~= s@);
        }
    }
    out
}

/// The pieces of a text between occurrences of `c`.
pub fn split_all(s: &str, c: char) -> (res: Vec<String>)
    ensures
        res.deep_view() == split(s@, c),
        res@.len() >= 1,
{
    let chars = chars_of(s);
    let mut out: Vec<String> = Vec::new();
    let mut from: usize = 0;
    assert(chars@.skip(0) =~= s@);
    assert(out.deep_view() + split(s@, c) =~= split(s@, c));
    loop
        invariant
            chars@ == s@,
            from <= chars@.len(),
            out.deep_view() + split(chars@.skip(from as int), c) == split(s@, c),
        decreases chars@.len() - from,
    {
        let i = find_from(&chars, from, c);
        let ghost before = out.deep_view();
        let piece = text_of(&chars, from, i);
        let ghost rest = chars@.skip(from as int);
        assert(piece@ =~= rest.take(i - from));
        out.push(piece);
        assert(out.deep_view() =~= before.push(piece@));
        if i == chars.len() {
            assert(rest.take(i - from) =~= rest);
            assert(out.deep_view() =~= before + split(rest, c));
            return out;
        }
        assert(rest.skip(i - from + 1) =~= chars@.skip(i + 1));
        assert(before + split(rest, c) =~= out.deep_view() + split(chars@.skip(i + 1), c));
        from = i + 1;
    }
}

/// Whether a text begins with another.
pub fn starts_with(s: &str, p: &str) -> (res: bool)
    ensures
        res == begins(s@, p@),
{
    let x = chars_of(s);
    let y = chars_of(p);
    matches_at(&x, &y, 0)
}

/// Whether the characters of `y` stand in `x` at position `at`.
fn matches_at(x: &Vec<char>, y: &Vec<char>, at: usize) -> (res: bool)
    requires
        at <= x@.len(),
    ensures
        res == begins(x@.skip(at as int), y@),
        res == occurs_at(x@, y@, at as int),
{
    if y.len() > x.len() - at {
        return false;
    }
    let ghost rest = x@.skip(at as int);
    let n = x.len();
    let mut i: usize = 0;
    while i < y.len()
        invariant
            i <= y@.len(),
            n == x@.len(),
            at <= n,
            y@.len() <= x@.len() - at,
            rest == x@.skip(at as int),
            forall|j: int| 0 <= j < i ==> #[trigger] rest[j] == y@[j],
        decreases y@.len() - i,
    {
        assert(rest[i as int] == x@[at + i]);
        if x[at + i] != y[i] {
            assert(rest.take(y@.len() as int)[i as int] != y@[i as int]);
            assert(x@.subrange(at as int, at + y@.len())[i as int] != y@[i as int]);
            return false;
        }
        i += 1;
    }
    assert(rest.take(y@.len() as int) =~= y@);
    assert(x@.subrange(at as int, at + y@.len()) =~= rest.take(y@.len() as int));
    true
}

/// Whether a text ends with another.
pub fn ends_with(s: &str, p: &str) -> (res: bool)
    ensures
        res == ends(s@, p@),
{
    let x = chars_of(s);
    let y = chars_of(p);
    if y.len() > x.len() {
        return false;
    }
    let at = x.len() - y.len();
    assert(x@.skip(at as int).take(y@.len() as int) =~= x@.skip(at as int));
    matches_at(&x, &y, at)
}

/// Whether a text occurs in another.
pub fn contains(s: &str, p: &str) -> (res: bool)
    ensures
        res == occurs(s@, p@),
{
    let x = chars_of(s);
    let y = chars_of(p);
    if y.len() > x.len() {
        return false;
    }
    let last = x.len() - y.len();
    let mut i: usize = 0;
    while i <= last
        invariant
            x@ == s@,
            y@ == p@,
            last == x@.len() - y@.len(),
            last <= x@.len(),
            i <= last + 1,
            forall|j: int| 0 <= j < i ==> !occurs_at(s@, p@, j),
        decreases last + 1 - i,
    {
        if matches_at(&x, &y, i) {
            return true;
        }
        if i == last {
            return false;
        }
        i += 1;
    }
    false
}

/// The parts of a text around the first occurrence of `p`.
pub fn split_at_text(s: &str, p: &str) -> (res: Option<(String, String)>)
    ensures
        res.deep_view() == (match find_text(s@, p@) {
            Some(i) => Some((s@.take(i), s@.skip(i + p@.len()))),
            None => None,
        }),
{
    let x = chars_of(s);
    let y = chars_of(p);
    let n = x.len();
    let mut i: usize = 0;
    assert(x@.skip(0) =~= s@);
    loop
        invariant
            x@ == s@,
            y@ == p@,
            n == x@.len(),
            i <= n,
            find_text(s@, p@) == (match find_text(x@.skip(i as int), p@) {
                Some(k) => Some(k + i),
                None => None,
            }),
        decreases n - i,
    {
        let ghost rest = x@.skip(i as int);
        if matches_at(&x, &y, i) {
            let left = text_of(&x, 0, i);
            let right = text_of(&x, i + y.len(), n);
            assert(left@ =~= s@.take(i as int));
            assert(right@ =~= s@.skip(i + p@.len()));
            return Some((left, right));
        }
        if i == n {
            return None;
        }
        assert(rest.drop_first() =~= x@.skip(i + 1));
        i += 1;
    }
}

/// The text after the last separator `p`.
pub fn after_last_separator(s: &str, p: &str) -> (res: String)
    requires
        p@.len() > 0,
    ensures
        res@ == last_piece(s@, p@),
{
    let x = chars_of(s);
    let y = chars_of(p);
    let n = x.len();
    let mut start: usize = 0;
    let mut i: usize = 0;
    assert(x@.skip(0) =~= s@);
    while i < n
        invariant
            x@ == s@,
            y@ == p@,
            p@.len() > 0,
            n == x@.len(),
            start <= i <= n,
            last_piece(x@.skip(start as int), p@) == last_piece(s@, p@),
            find_text(x@.skip(start as int), p@) == (match find_text(x@.skip(i as int), p@) {
                Some(k) => Some(k + (i - start)),
                None => None,
            }),
        decreases n - i,
    {
        let ghost rest = x@.skip(i as int);
        if matches_at(&x, &y, i) {
            assert(find_text(rest, p@) == Some(0int));
            assert(x@.skip(start as int).skip((i - start) + p@.len()) =~= x@.skip(i + p@.len()));
            i += y.len();
            start = i;
        } else {
            assert(rest.drop_first() =~= x@.skip(i + 1));
            i += 1;
        }
    }
    assert(x@.skip(n as int) =~= Seq::<char>::empty());
    assert(find_text(Seq::<char>::empty(), p@) is None);
    let out = text_of(&x, start, n);
    assert(out@ =~= x@.skip(start as int));
    out
}

/// The text with every occurrence of `p` replaced by `r`.
pub fn replace(s: &str, p: &str, r: &str) -> (res: String)
    requires
        p@.len() > 0,
    ensures
        res@ == replaced(s@, p@, r@),
{
    let x = chars_of(s);
    let y = chars_of(p);
    let mut out = String::new();
    let mut i: usize = 0;
    assert(x@.skip(0) =~= s@);
    assert(out@ + replaced(s@, p@, r@) =~= replaced(s@, p@, r@));
    while i < x.len()
        invariant
            x@ == s@,
            y@ == p@,
            p@.len() > 0,
            i <= x@.len(),
            out@ + replaced(x@.skip(i as int), p@, r@) == replaced(s@, p@, r@),
        decreases x@.len() - i,
    {
        let ghost rest = x@.skip(i as int);
        let ghost before = out@;
        if matches_at(&x, &y, i) {
            out.append(r);
            assert(rest.skip(p@.len() as int) =~= x@.skip(i + p@.len()));
            assert(out@ + replaced(x@.skip(i + p@.len()), p@, r@) =~= before + replaced(
                rest,
                p@,
                r@,
            ));
            i += y.len();
        } else {
            out.push(x[i]);
            assert(rest[0] == x@[i as int]);
            assert(rest.drop_first() =~= x@.skip(i + 1));
            assert(out@ + replaced(x@.skip(i + 1), p@, r@) =~= before + replaced(rest, p@, r@));
            i += 1;
        }
    }
    assert(x@.skip(i as int) =~= Seq::<char>::empty());
    assert(out@ + Seq::<char>::empty() =~= out@);
    out
}

/// Joining one more text appends the separator, where there is something to separate, and it.
pub proof fn lemma_joined_push(parts: Seq<Seq<char>>, sep: Seq<char>, last: Seq<char>)
    ensures
        joined(parts.push(last), sep) == (if parts.len() == 0 {
            last
        } else {
            joined(parts, sep) + sep + last
        }),
{
    assert(parts.push(last).drop_last() =~= parts);
}

proof fn lemma_split_last(a: Seq<char>, c: char, b: Seq<char>)
    requires
        !b.contains(c),
    ensures
        split(a + seq![c] + b, c) == split(a, c).push(b),
    decreases a.len(),
{
    let s = a + seq![c] + b;
    let i = find(a, c);
    lemma_first_where(a, equals(c));
    assert forall|j: int| 0 <= j < i implies !equals(c)(#[trigger] s[j]) by {
        assert(s[j] == a[j]);
    }
    lemma_first_where_is(s, equals(c), i);
    assert(s.take(i) =~= a.take(i));
    if i < a.len() {
        assert(s.skip(i + 1) =~= a.skip(i + 1) + seq![c] + b);
        lemma_split_last(a.skip(i + 1), c, b);
        assert(split(s, c) == seq![s.take(i)] + split(s.skip(i + 1), c));
        assert(seq![a.take(i)] + split(a.skip(i + 1), c).push(b) =~= (seq![a.take(i)] + split(
            a.skip(i + 1),
            c,
        )).push(b));
    } else {
        assert(a.take(i) =~= a);
        assert(s.skip(i + 1) =~= b);
        let k = find(b, c);
        lemma_first_where(b, equals(c));
        if k < b.len() {
            assert(b[k] == c);
        }
        assert(split(b, c) == seq![b]);
        assert(split(a, c) == seq![a]);
        assert(split(s, c) == seq![a] + seq![b]);
        assert(seq![a] + seq![b] =~= seq![a].push(b));
    }
}

/// Texts that are joined by a character which none of them holds can be told apart again.
pub proof fn law_joined_lines_can_be_told_apart(parts: Seq<Seq<char>>, c: char)
    requires
        parts.len() > 0,
        forall|i: int| 0 <= i < parts.len() ==> !(#[trigger] parts[i]).contains(c),
    ensures
        split(joined(parts, seq![c]), c) == parts,
    decreases parts.len(),
{
    if parts.len() == 1 {
        let k = find(parts[0], c);
        lemma_first_where(parts[0], equals(c));
        if k < parts[0].len() {
            assert(parts[0][k] == c);
        }
        assert(seq![parts[0]] =~= parts);
    } else {
        let init = parts.drop_last();
        assert forall|i: int| 0 <= i < init.len() implies !(#[trigger] init[i]).contains(c) by {
            assert(init[i] == parts[i]);
        }
        law_joined_lines_can_be_told_apart(init, c);
        lemma_split_last(joined(init, seq![c]), c, parts.last());
        assert(init.push(parts.last()) =~= parts);
    }
}

/// The texts of a list with `sep` between neighbours.
pub fn join(parts: &Vec<String>, sep: &str) -> (res: String)
    ensures
        res@ == joined(parts.deep_view(), sep@),
{
    let mut out = String::new();
    let ghost all = parts.deep_view();
    let mut i: usize = 0;
    assert(all.take(0) =~= Seq::<Seq<char>>::empty());
    while i < parts.len()
        invariant
            i <= parts@.len(),
            all == parts.deep_view(),
            out@ == joined(all.take(i as int), sep@),
        decreases parts@.len() - i,
    {
        let ghost next = all.take(i + 1);
        assert(next.drop_last() =~= all.take(i as int));
        assert(next.last() == parts@[i as int]@);
        if i > 0 {
            out.append(sep);
        }
        out.append(parts[i].as_str());
        proof {
            if i == 0 {
                assert(out@ =~= next[0]);
            }
        }
        i += 1;
    }
    assert(all.take(i as int) =~= all);
    out
}

/// Whether the first text does not come after the second.
pub fn not_after(a: &str, b: &str) -> (res: bool)
    ensures
        res == text_le(a@, b@),
{
    let x = chars_of(a);
    let y = chars_of(b);
    let mut i: usize = 0;
    assert(x@.skip(0) =~= a@);
    assert(y@.skip(0) =~= b@);
    loop
        invariant
            i <= x@.len(),
            i <= y@.len(),
            text_le(x@.skip(i as int), y@.skip(i as int)) == text_le(a@, b@),
        decreases x@.len() - i,
    {
        let ghost p = x@.skip(i as int);
        let ghost q = y@.skip(i as int);
        if i == x.len() {
            return true;
        }
        if i == y.len() {
            return false;
        }
        assert(p[0] == x@[i as int]);
        assert(q[0] == y@[i as int]);
        if x[i] != y[i] {
            return x[i] < y[i];
        }
        assert(p.drop_first() =~= x@.skip(i + 1));
        assert(q.drop_first() =~= y@.skip(i + 1));
        i += 1;
    }
}

/// The text with ASCII capital letters turned into small letters.
pub fn to_lower(s: &str) -> (res: String)
    ensures
        res@ == lowered(s@),
{
    let x = chars_of(s);
    let mut out = String::new();
    let mut i: usize = 0;
    assert(out@ =~= lowered(s@).take(0));
    while i < x.len()
        invariant
            x@ == s@,
            i <= x@.len(),
            out@ == lowered(s@).take(i as int),
        decreases x@.len() - i,
    {
        let c = x[i];
        let l = lower_char(c);
        out.push(l);
        i += 1;
        assert(out@ =~= lowered(s@).take(i as int));
    }
    assert(lowered(s@).take(i as int) =~= lowered(s@));
    out
}

/// The small letter of an ASCII capital letter; any other character is kept.
fn lower_char(c: char) -> (res: char)
    ensures
        res == lower(c),
{
    if 'A' <= c && c <= 'Z' {
        ((c as u8) + 32) as char
    } else {
        c
    }
}

/// Whether a text stands in a list.
pub fn list_contains(list: &Vec<String>, s: &str) -> (res: bool)
    ensures
        res == list.deep_view().contains(s@),
{
    let mut i: usize = 0;
    while i < list.len()
        invariant
            i <= list@.len(),
            forall|j: int| 0 <= j < i ==> list@[j]@ != s@,
        decreases list@.len() - i,
    {
        if same(list[i].as_str(), s) {
            assert(list.deep_view()[i as int] == s@);
            return true;
        }
        i += 1;
    }
    false
}

/// A copy of a list of texts.
pub fn copy_list(list: &Vec<String>) -> (res: Vec<String>)
    ensures
        res.deep_view() == list.deep_view(),
{
    let mut out: Vec<String> = Vec::new();
    let mut i: usize = 0;
    while i < list.len()
        invariant
            i <= list@.len(),
            out@.len() == i,
            forall|j: int| 0 <= j < i ==> out@[j]@ == list@[j]@,
        decreases list@.len() - i,
    {
        out.push(copy(list[i].as_str()));
        i += 1;
    }
    assert(out.deep_view() =~= list.deep_view());
    out
}

/// A copy of an optional text.
pub fn copy_option(s: &Option<String>) -> (res: Option<String>)
    ensures
        res.deep_view() == s.deep_view(),
{
    match s {
        Some(t) => Some(copy(t.as_str())),
        None => None,
    }
}

/// A text is found exactly where it occurs, and the place is that of its first occurrence.
pub proof fn law_texts_are_found_where_they_first_occur(s: Seq<char>, p: Seq<char>)
    ensures
        find_text(s, p) is Some <==> occurs(s, p),
        find_text(s, p) matches Some(i) ==> occurs_at(s, p, i) && forall|j: int|
            0 <= j < i ==> !occurs_at(s, p, j),
    decreases s.len(),
{
    if begins(s, p) {
        assert(s.subrange(0, p.len() as int) =~= s.take(p.len() as int));
        assert(occurs_at(s, p, 0));
    } else if s.len() == 0 {
        assert(!occurs(s, p)) by {
            if occurs(s, p) {
                let i = choose|i: int| occurs_at(s, p, i);
                assert(s.take(p.len() as int) =~= p);
            }
        }
    } else {
        let t = s.drop_first();
        law_texts_are_found_where_they_first_occur(t, p);
        assert(!occurs_at(s, p, 0)) by {
            if occurs_at(s, p, 0) {
                assert(s.subrange(0, p.len() as int) =~= s.take(p.len() as int));
            }
        }
        assert forall|j: int| 0 < j implies occurs_at(s, p, j) == #[trigger] occurs_at(t, p, j - 1) by {
            if j + p.len() <= s.len() {
                assert(s.subrange(j, j + p.len()) =~= t.subrange(j - 1, j - 1 + p.len()));
            }
        }
        if occurs(s, p) {
            let i = choose|i: int| occurs_at(s, p, i);
            assert(occurs_at(t, p, i - 1));
        }
        if let Some(i) = find_text(t, p) {
            assert(occurs_at(t, p, (i + 1) - 1));
            assert(occurs_at(s, p, i + 1));
            assert forall|j: int| 0 <= j < i + 1 implies !occurs_at(s, p, j) by {
                if j > 0 {
                    assert(!occurs_at(t, p, j - 1));
                }
            }
        }
    }
}

proof fn lemma_stripped_start(s: Seq<char>, p: spec_fn(char) -> bool)
    ensures
        strip_start(s, p).len() <= s.len(),
        strip_start(s, p) == s.skip(s.len() - strip_start(s, p).len()),
        forall|i: int| 0 <= i < s.len() - strip_start(s, p).len() ==> p(#[trigger] s[i]),
        strip_start(s, p).len() > 0 ==> !p(strip_start(s, p)[0]),
    decreases s.len(),
{
    if s.len() > 0 && p(s[0]) {
        let t = s.drop_first();
        lemma_stripped_start(t, p);
        let cut = s.len() - strip_start(t, p).len();
        assert(t.skip(cut - 1) =~= s.skip(cut));
        assert forall|i: int| 0 <= i < cut implies p(#[trigger] s[i]) by {
            if i > 0 {
                assert(s[i] == t[i - 1]);
            }
        }
    } else {
        assert(s.skip(0) =~= s);
    }
}

proof fn lemma_stripped_end(s: Seq<char>, p: spec_fn(char) -> bool)
    ensures
        strip_end(s, p).len() <= s.len(),
        strip_end(s, p) == s.take(strip_end(s, p).len() as int),
        forall|i: int| strip_end(s, p).len() <= i < s.len() ==> p(#[trigger] s[i]),
        strip_end(s, p).len() > 0 ==> !p(strip_end(s, p).last()),
    decreases s.len(),
{
    if s.len() > 0 && p(s.last()) {
        let t = s.drop_last();
        lemma_stripped_end(t, p);
        let n = strip_end(t, p).len() as int;
        assert(t.take(n) =~= s.take(n));
        assert forall|i: int| n <= i < s.len() implies p(#[trigger] s[i]) by {
            if i < s.len() - 1 {
                assert(s[i] == t[i]);
            }
        }
    } else {
        assert(s.take(s.len() as int) =~= s);
    }
}

/// Trimming takes white space off both ends of a text, all of it and nothing else.
pub proof fn law_trimming_takes_white_space_off(s: Seq<char>)
    ensures
        exists|i: int, j: int|
            #![trigger s.subrange(i, j)]
            0 <= i <= j <= s.len() && trimmed(s) == s.subrange(i, j) && (forall|k: int|
                0 <= k < i ==> white(#[trigger] s[k])) && (forall|k: int|
                j <= k < s.len() ==> white(#[trigger] s[k])),
        trimmed(s).len() > 0 ==> !white(trimmed(s)[0]) && !white(trimmed(s).last()),
{
    let p = |c: char| white(c);
    let t = strip_start(s, p);
    lemma_stripped_start(s, p);
    lemma_stripped_end(t, p);
    let i = s.len() - t.len();
    let j = i + trimmed(s).len();
    assert(trimmed(s) =~= s.subrange(i, j));
    assert forall|k: int| 0 <= k < i implies white(#[trigger] s[k]) by {
        assert(p(s[k]));
    }
    assert forall|k: int| j <= k < s.len() implies white(#[trigger] s[k]) by {
        assert(s[k] == t[k - i]);
        assert(p(t[k - i]));
    }
    if trimmed(s).len() > 0 {
        assert(trimmed(s)[0] == t[0]);
        assert(!p(t[0]));
        assert(!p(trimmed(s).last()));
    }
}

/// Trimming a text that is neither empty nor white at its ends changes nothing.
pub proof fn law_trimming_twice_is_trimming_once(s: Seq<char>)
    ensures
        s.len() > 0 && !white(s[0]) && !white(s.last()) ==> trimmed(s) == s,
        trimmed(trimmed(s)) == trimmed(s),
{
    law_trimming_takes_white_space_off(s);
    let p = |c: char| white(c);
    assert(s.len() > 0 && !p(s[0]) ==> strip_start(s, p) == s);
    let t = trimmed(s);
    assert(t.len() > 0 ==> !p(t[0]) && strip_start(t, p) == t);
}

/// Trimming of one character takes that character off both ends, all of it and nothing else.
pub proof fn law_trimming_of_a_character(s: Seq<char>, c: char)
    ensures
        exists|i: int, j: int|
            #![trigger s.subrange(i, j)]
            0 <= i <= j <= s.len() && trimmed_of(s, c) == s.subrange(i, j) && (forall|k: int|
                0 <= k < i ==> (#[trigger] s[k]) == c) && (forall|k: int|
                j <= k < s.len() ==> (#[trigger] s[k]) == c),
        trimmed_of(s, c).len() > 0 ==> trimmed_of(s, c)[0] != c && trimmed_of(s, c).last() != c,
{
    let p = equals(c);
    let t = strip_start(s, p);
    lemma_stripped_start(s, p);
    lemma_stripped_end(t, p);
    let i = s.len() - t.len();
    let j = i + trimmed_of(s, c).len();
    assert(trimmed_of(s, c) =~= s.subrange(i, j));
    assert forall|k: int| 0 <= k < i implies (#[trigger] s[k]) == c by {
        assert(p(s[k]));
    }
    assert forall|k: int| j <= k < s.len() implies (#[trigger] s[k]) == c by {
        assert(s[k] == t[k - i]);
        assert(p(t[k - i]));
    }
    if trimmed_of(s, c).len() > 0 {
        assert(trimmed_of(s, c)[0] == t[0]);
        assert(!p(t[0]));
        assert(!p(trimmed_of(s, c).last()));
    }
}

/// White space is what separates words on a line and lines from one another; no letter, digit or
/// printed sign of ASCII is.
pub proof fn law_white_space(c: char)
    ensures
        white(' ') && white('\t') && white('\n') && white('\r'),
        '!' <= c <= '~' ==> !white(c),
        white(c) && c < '\u{80}' ==> c == ' ' || c == '\t' || c == '\n' || c == '\r' || c
            == '\u{b}' || c == '\u{c}',
{
}

/// A text is cut at the first of a character: what stands before it does not hold it, and both
/// parts with the character between them are the text. A text without it is not cut.
pub proof fn law_texts_are_cut_at_the_first(a: Seq<char>, c: char, b: Seq<char>)
    requires
        !a.contains(c),
    ensures
        split_once(a + seq![c] + b, c) == Some((a, b)),
        split_once(a, c) is None,
        find(a + seq![c] + b, c) == a.len(),
{
    let s = a + seq![c] + b;
    assert forall|j: int| 0 <= j < a.len() implies !equals(c)(#[trigger] s[j]) by {
        assert(s[j] == a[j]);
    }
    lemma_first_where_is(s, equals(c), a.len() as int);
    assert forall|j: int| 0 <= j < a.len() implies !equals(c)(#[trigger] a[j]) by {
        assert(a.contains(a[j]));
    }
    lemma_first_where_is(a, equals(c), a.len() as int);
    assert(s.take(a.len() as int) =~= a);
    assert(s.skip((a.len() + 1) as int) =~= b);
}

/// The pieces of a text are what stands between the separators: none holds one, and joined again they
/// are the text.
pub proof fn law_pieces_make_up_the_text(s: Seq<char>, c: char)
    ensures
        split(s, c).len() > 0,
        forall|i: int| 0 <= i < split(s, c).len() ==> !(#[trigger] split(s, c)[i]).contains(c),
        joined(split(s, c), seq![c]) == s,
    decreases s.len(),
{
    let i = find(s, c);
    lemma_first_where(s, equals(c));
    if i < s.len() {
        let head = s.take(i);
        let rest = s.skip(i + 1);
        law_pieces_make_up_the_text(rest, c);
        let all = seq![head] + split(rest, c);
        assert forall|k: int| 0 <= k < all.len() implies !(#[trigger] all[k]).contains(c) by {
            if k == 0 {
                assert forall|m: int| 0 <= m < head.len() implies head[m] != c by {
                    assert(!equals(c)(s[m]));
                }
            } else {
                assert(all[k] == split(rest, c)[k - 1]);
            }
        }
        lemma_joined_first(head, split(rest, c), seq![c]);
        assert(head + seq![c] + rest =~= s);
    } else {
        assert forall|m: int| 0 <= m < s.len() implies s[m] != c by {
            assert(!equals(c)(s[m]));
        }
        assert(!s.contains(c));
        assert(split(s, c) == seq![s]);
    }
}

proof fn lemma_joined_first(first: Seq<char>, parts: Seq<Seq<char>>, sep: Seq<char>)
    requires
        parts.len() > 0,
    ensures
        joined(seq![first] + parts, sep) == first + sep + joined(parts, sep),
    decreases parts.len(),
{
    let all = seq![first] + parts;
    if parts.len() == 1 {
        assert(all.drop_last() =~= seq![first]);
        assert(joined(seq![first], sep) == first);
        assert(all.last() == parts[0]);
    } else {
        assert(all.drop_last() =~= seq![first] + parts.drop_last());
        lemma_joined_first(first, parts.drop_last(), sep);
        assert(first + sep + joined(parts.drop_last(), sep) + sep + parts.last() =~= first + sep + (
        joined(parts.drop_last(), sep) + sep + parts.last()));
    }
}

/// Replacing leaves a text as it is where there is nothing to replace; else what stands before the
/// first occurrence stays, the occurrence is replaced, and what follows is treated likewise.
pub proof fn law_every_occurrence_is_replaced(
    a: Seq<char>,
    p: Seq<char>,
    b: Seq<char>,
    r: Seq<char>,
)
    requires
        p.len() > 0,
    ensures
        !occurs(a, p) ==> replaced(a, p, r) == a,
        (forall|i: int| 0 <= i < a.len() ==> !occurs_at(a + p + b, p, i)) ==> replaced(
            a + p + b,
            p,
            r,
        ) == a + r + replaced(b, p, r),
    decreases a.len(),
{
    if !occurs(a, p) {
        lemma_nothing_replaced(a, p, r);
    }
    let s = a + p + b;
    if forall|i: int| 0 <= i < a.len() ==> !occurs_at(s, p, i) {
        if a.len() == 0 {
            assert(s.take(p.len() as int) =~= p);
            assert(s.skip(p.len() as int) =~= b);
            assert(a + r + replaced(b, p, r) =~= r + replaced(b, p, r));
        } else {
            let t = a.drop_first() + p + b;
            assert(s.drop_first() =~= t);
            assert(!begins(s, p)) by {
                if begins(s, p) {
                    assert(s.subrange(0, p.len() as int) =~= s.take(p.len() as int));
                    assert(occurs_at(s, p, 0));
                }
            }
            assert forall|i: int| 0 <= i < a.drop_first().len() implies !occurs_at(t, p, i) by {
                assert(!occurs_at(s, p, i + 1));
                if i + p.len() <= t.len() {
                    assert(t.subrange(i, i + p.len()) =~= s.subrange(i + 1, i + 1 + p.len()));
                }
            }
            law_every_occurrence_is_replaced(a.drop_first(), p, b, r);
            assert(seq![s[0]] + (a.drop_first() + r + replaced(b, p, r)) =~= a + r + replaced(
                b,
                p,
                r,
            ));
        }
    }
}

proof fn lemma_nothing_replaced(a: Seq<char>, p: Seq<char>, r: Seq<char>)
    requires
        p.len() > 0,
        !occurs(a, p),
    ensures
        replaced(a, p, r) == a,
    decreases a.len(),
{
    if a.len() > 0 {
        assert(!begins(a, p)) by {
            if begins(a, p) {
                assert(a.subrange(0, p.len() as int) =~= a.take(p.len() as int));
                assert(occurs_at(a, p, 0));
            }
        }
        let t = a.drop_first();
        assert(!occurs(t, p)) by {
            if occurs(t, p) {
                let i = choose|i: int| occurs_at(t, p, i);
                assert(t.subrange(i, i + p.len()) =~= a.subrange(i + 1, i + 1 + p.len()));
                assert(occurs_at(a, p, i + 1));
            }
        }
        lemma_nothing_replaced(t, p, r);
        assert(seq![a[0]] + t =~= a);
    }
}

/// The last piece of a text holds no mark: it is the whole text where there is none, and else the
/// last piece of what follows the first mark.
pub proof fn law_the_last_piece_follows_the_last_mark(a: Seq<char>, p: Seq<char>, b: Seq<char>)
    requires
        p.len() > 0,
    ensures
        !occurs(a, p) ==> last_piece(a, p) == a,
        (forall|i: int| 0 <= i < a.len() ==> !occurs_at(a + p + b, p, i)) ==> last_piece(
            a + p + b,
            p,
        ) == last_piece(b, p),
{
    law_texts_are_found_where_they_first_occur(a, p);
    let s = a + p + b;
    law_texts_are_found_where_they_first_occur(s, p);
    if forall|i: int| 0 <= i < a.len() ==> !occurs_at(s, p, i) {
        assert(s.subrange(a.len() as int, (a.len() + p.len()) as int) =~= p);
        assert(occurs_at(s, p, a.len() as int));
        assert(find_text(s, p) == Some(a.len() as int));
        assert(s.skip((a.len() + p.len()) as int) =~= b);
    }
}

/// The order of texts: a text comes before those that continue it, and of two texts that part, the
/// one with the smaller character comes first.
pub proof fn law_texts_are_ordered_by_their_characters(
    head: Seq<char>,
    x: char,
    a: Seq<char>,
    y: char,
    b: Seq<char>,
)
    ensures
        text_le(head, head + a),
        a.len() > 0 ==> !text_le(head + a, head),
        x < y ==> text_le(head + seq![x] + a, head + seq![y] + b) && !text_le(
            head + seq![y] + b,
            head + seq![x] + a,
        ),
    decreases head.len(),
{
    let l = head + seq![x] + a;
    let m = head + seq![y] + b;
    if head.len() == 0 {
        assert(l[0] == x && m[0] == y);
        assert(head + a =~= a);
    } else {
        let t = head.drop_first();
        law_texts_are_ordered_by_their_characters(t, x, a, y, b);
        assert((head + a).drop_first() =~= t + a);
        assert(l.drop_first() =~= t + seq![x] + a);
        assert(m.drop_first() =~= t + seq![y] + b);
        assert(l[0] == head[0] && m[0] == head[0] && (head + a)[0] == head[0]);
    }
}

/// Lowering changes capital letters of ASCII alone, each to the small one of the same letter.
pub proof fn law_lowering_changes_capitals_alone(s: Seq<char>)
    ensures
        lowered(s).len() == s.len(),
        forall|i: int|
            0 <= i < s.len() ==> !('A' <= #[trigger] lowered(s)[i] <= 'Z') && (!('A' <= s[i] <= 'Z')
                ==> lowered(s)[i] == s[i]) && ('A' <= s[i] <= 'Z' ==> lowered(s)[i] as int
                == s[i] as int + 32),
        lowered(lowered(s)) == lowered(s),
{
    assert(lowered(lowered(s)) =~= lowered(s));
}

/// The first piece of a text is what stands before the first separator, and the others are the pieces
/// of what follows it. A text without a separator is one piece.
pub proof fn law_pieces_follow_each_other(a: Seq<char>, c: char, b: Seq<char>)
    requires
        !a.contains(c),
    ensures
        split(a, c) == seq![a],
        split(a + seq![c] + b, c) == seq![a] + split(b, c),
{
    law_texts_are_cut_at_the_first(a, c, b);
    let s = a + seq![c] + b;
    assert(s.take(a.len() as int) =~= a);
    assert(s.skip((a.len() + 1) as int) =~= b);
    lemma_first_where(a, equals(c));
    assert(find(a, c) == a.len()) by {
        if find(a, c) < a.len() {
            assert(a.contains(a[find(a, c)]));
        }
    }
}

/// Replacing a single character goes character by character: what is made of two texts is made of
/// both together.
pub proof fn law_characters_are_replaced_one_by_one(
    a: Seq<char>,
    b: Seq<char>,
    c: char,
    r: Seq<char>,
)
    ensures
        replaced(a + b, seq![c], r) == replaced(a, seq![c], r) + replaced(b, seq![c], r),
        a.len() == 0 ==> replaced(a, seq![c], r) == a,
        a.len() == 1 && a[0] == c ==> replaced(a, seq![c], r) == r,
        a.len() == 1 && a[0] != c ==> replaced(a, seq![c], r) == a,
    decreases a.len(),
{
    let p = seq![c];
    if a.len() == 0 {
        assert(a + b =~= b);
        assert(a + replaced(b, p, r) =~= replaced(b, p, r));
    } else {
        let t = a.drop_first();
        law_characters_are_replaced_one_by_one(t, b, c, r);
        assert((a + b).drop_first() =~= t + b);
        assert((a + b).skip(1) =~= t + b);
        assert(a.skip(1) =~= t);
        assert(begins(a, p) <==> a[0] == c) by {
            assert(a.take(1) =~= seq![a[0]]);
            assert(seq![a[0]][0] == a[0] && p[0] == c);
        }
        assert(begins(a + b, p) <==> a[0] == c) by {
            assert((a + b).take(1) =~= seq![a[0]]);
            assert(seq![a[0]][0] == a[0] && p[0] == c);
        }
        if a[0] == c {
            assert(r + (replaced(t, p, r) + replaced(b, p, r)) =~= r + replaced(t, p, r) + replaced(
                b,
                p,
                r,
            ));
        } else {
            assert(seq![a[0]] + (replaced(t, p, r) + replaced(b, p, r)) =~= seq![a[0]] + replaced(
                t,
                p,
                r,
            ) + replaced(b, p, r));
        }
        if a.len() == 1 {
            assert(t =~= Seq::empty());
            assert(replaced(t, p, r) == t);
            assert(r + t =~= r);
            assert(seq![a[0]] + t =~= a);
        }
    }
}

/// A text begins with, ends in, or holds another exactly where it is that one with something behind it,
/// before it, or on both sides.
pub proof fn law_beginnings_and_ends(a: Seq<char>, p: Seq<char>, b: Seq<char>, s: Seq<char>)
    ensures
        begins(p + b, p),
        ends(a + p, p),
        occurs_at(a + p + b, p, a.len() as int),
        begins(s, p) ==> s == p + s.skip(p.len() as int),
        ends(s, p) ==> p.len() <= s.len() && s == s.take(s.len() - p.len()) + p,
        forall|i: int| #[trigger]
            occurs_at(s, p, i) ==> 0 <= i && i + p.len() <= s.len() && s == s.take(i) + p + s.skip(
                i + p.len(),
            ),
        occurs(s, p) <==> exists|i: int| occurs_at(s, p, i),
{
    assert((p + b).take(p.len() as int) =~= p);
    assert((a + p).skip((a + p).len() - p.len()) =~= p);
    assert((a + p + b).subrange(a.len() as int, (a.len() + p.len()) as int) =~= p);
    if begins(s, p) {
        assert(s =~= s.take(p.len() as int) + s.skip(p.len() as int));
    }
    if ends(s, p) {
        assert(s =~= s.take(s.len() - p.len()) + s.skip(s.len() - p.len()));
    }
    assert forall|i: int| #[trigger] occurs_at(s, p, i) implies 0 <= i && i + p.len() <= s.len() && s
        == s.take(i) + p + s.skip(i + p.len()) by {
        assert(s =~= s.take(i) + s.subrange(i, i + p.len()) + s.skip(i + p.len()));
    }
}

/// White space beyond ASCII: the spaces and line ends of the wider character set, and no letter, mark
/// or sign of it; what has no width is not white.
pub proof fn law_white_space_beyond_ascii(c: char)
    ensures
        white('\u{85}') && white('\u{a0}') && white('\u{1680}') && white('\u{2000}') && white(
            '\u{200a}',
        ) && white('\u{2028}') && white('\u{2029}') && white('\u{202f}') && white('\u{205f}')
            && white('\u{3000}'),
        !white('\u{200b}') && !white('\u{feff}') && !white('\u{3001}') && !white('\u{2060}'),
        c > '\u{3000}' ==> !white(c),
        '\u{3000}' > c && c > '\u{205f}' ==> !white(c),
        '\u{a0}' < c && c < '\u{1680}' ==> !white(c),
        '\u{1680}' < c && c < '\u{2000}' ==> !white(c),
        '\u{200a}' < c && c < '\u{2028}' ==> !white(c),
        '\u{2029}' < c && c < '\u{202f}' ==> !white(c),
        '\u{202f}' < c && c < '\u{205f}' ==> !white(c),
        '\u{85}' < c && c < '\u{a0}' ==> !white(c),
        '\u{80}' <= c && c < '\u{85}' ==> !white(c),
{
}

} // verus!
