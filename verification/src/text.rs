//! Character-level text rules shared by the rest of the crate.

use vstd::prelude::*;
use vstd::utf8::*;

verus! {

/// The length of `s` in UTF-8.
pub open spec fn byte_len(s: Seq<char>) -> nat {
    encode_utf8(s).len()
}

/// A text that may be absent, as characters.
pub open spec fn optional_view(s: Option<&str>) -> Option<Seq<char>> {
    match s {
        Some(t) => Some(t@),
        None => None,
    }
}

/// UTF-8 encodes a text character by character: the encoding of two texts one
/// after the other is the two encodings one after the other.
pub proof fn lemma_encode_concat(a: Seq<char>, b: Seq<char>)
    ensures
        encode_utf8(a + b) == encode_utf8(a) + encode_utf8(b),
    decreases a.len(),
{
    if a.len() == 0 {
        assert(a + b =~= b);
        assert(encode_utf8(a) + encode_utf8(b) =~= encode_utf8(b));
    } else {
        lemma_encode_concat(a.drop_first(), b);
        assert((a + b).drop_first() =~= a.drop_first() + b);
        assert(encode_utf8(a + b) =~= encode_utf8(a) + encode_utf8(b));
    }
}

/// The Unicode `White_Space` property, the set that `str::trim` strips.
pub open spec fn is_space(c: char) -> bool {
    ||| '\u{9}' <= c <= '\u{d}'
    ||| c == ' '
    ||| c == '\u{85}'
    ||| c == '\u{a0}'
    ||| c == '\u{1680}'
    ||| '\u{2000}' <= c <= '\u{200a}'
    ||| c == '\u{2028}'
    ||| c == '\u{2029}'
    ||| c == '\u{202f}'
    ||| c == '\u{205f}'
    ||| c == '\u{3000}'
}

/// `s` without its leading white space.
pub open spec fn trim_start(s: Seq<char>) -> Seq<char>
    decreases s.len(),
{
    if s.len() > 0 && is_space(s[0]) {
        trim_start(s.skip(1))
    } else {
        s
    }
}

/// `s` without its trailing white space.
pub open spec fn trim_end(s: Seq<char>) -> Seq<char>
    decreases s.len(),
{
    if s.len() > 0 && is_space(s.last()) {
        trim_end(s.drop_last())
    } else {
        s
    }
}

/// `s` without white space at either end.
pub open spec fn trim(s: Seq<char>) -> Seq<char> {
    trim_end(trim_start(s))
}

/// The part of `s` before the first `sep`; all of `s` where there is none.
pub open spec fn before(s: Seq<char>, sep: char) -> Seq<char>
    decreases s.len(),
{
    if s.len() == 0 || s[0] == sep {
        Seq::empty()
    } else {
        seq![s[0]] + before(s.skip(1), sep)
    }
}

/// The fields of `s` between occurrences of `sep`: always one more than there
/// are occurrences.
pub open spec fn fields(s: Seq<char>, sep: char) -> Seq<Seq<char>>
    decreases s.len(),
{
    let head = before(s, sep);
    if head.len() >= s.len() {
        seq![s]
    } else {
        seq![head] + fields(s.skip(head.len() as int + 1), sep)
    }
}

/// The code of `c`, with the ASCII capital letters folded onto the small ones.
pub open spec fn folded(c: char) -> u32 {
    if 'A' <= c <= 'Z' {
        (c as u32 + 32) as u32
    } else {
        c as u32
    }
}

/// `s` with its ASCII capital letters made small.
pub open spec fn lower(s: Seq<char>) -> Seq<char> {
    s.map_values(|c: char| folded(c) as char)
}

/// Equality of two texts up to the case of ASCII letters.
pub open spec fn same_ignoring_case(a: Seq<char>, b: Seq<char>) -> bool {
    &&& a.len() == b.len()
    &&& forall|i: int| 0 <= i < a.len() ==> folded(#[trigger] a[i]) == folded(b[i])
}

/// The decimal digit for `d`.
pub open spec fn digit(d: int) -> char {
    (48 + d) as char
}

/// `n` in decimal, without leading zeros.
pub open spec fn decimal(n: nat) -> Seq<char>
    decreases n,
{
    if n < 10 {
        seq![digit(n as int)]
    } else {
        decimal(n / 10).push(digit(n as int % 10))
    }
}

/// Whether every character of `s` is a decimal digit.
pub open spec fn all_digits(s: Seq<char>) -> bool {
    forall|i: int| 0 <= i < s.len() ==> '0' <= #[trigger] s[i] <= '9'
}

/// The number that the decimal digits `s` spell.
pub open spec fn digits_value(s: Seq<char>) -> nat
    decreases s.len(),
{
    if s.len() == 0 {
        0
    } else {
        (digits_value(s.drop_last()) * 10 + (s.last() as int - 48)) as nat
    }
}

/// `s` read as a `u64` the way std's `parse` does: decimal digits, at least
/// one, after an optional plus sign.
pub open spec fn parsed_u64(s: Seq<char>) -> Option<u64> {
    let digits = if s.len() > 0 && s[0] == '+' {
        s.skip(1)
    } else {
        s
    };
    if digits.len() > 0 && all_digits(digits) && digits_value(digits) <= u64::MAX {
        Some(digits_value(digits) as u64)
    } else {
        None
    }
}

/// Whether `part` occurs in `s`.
pub open spec fn has_part(s: Seq<char>, part: Seq<char>) -> bool {
    exists|i: int|
        0 <= i <= s.len() - part.len() && #[trigger] s.subrange(i, i + part.len()) == part
}

/// What stands before the first separator of a text is the same whatever is
/// appended, unless the text has no separator of its own.
pub proof fn lemma_before_append(a: Seq<char>, rest: Seq<char>, sep: char)
    ensures
        before(a, sep).len() <= a.len(),
        before(a, sep).len() < a.len() ==> before(a + rest, sep) == before(a, sep),
        before(a, sep).len() == a.len() ==> before(a, sep) == a && before(a + rest, sep) == a
            + before(rest, sep),
    decreases a.len(),
{
    if a.len() == 0 {
        assert(a + rest =~= rest);
        assert(a + before(rest, sep) =~= before(rest, sep));
    } else if a[0] != sep {
        lemma_before_append(a.skip(1), rest, sep);
        assert((a + rest).skip(1) =~= a.skip(1) + rest);
        if before(a, sep).len() == a.len() {
            assert(seq![a[0]] + a.skip(1) =~= a);
            assert(seq![a[0]] + (a.skip(1) + before(rest, sep)) =~= a + before(rest, sep));
        }
    }
}

/// Two texts joined by a separator have the fields of the first and then those
/// of the second.
pub proof fn lemma_fields_join(a: Seq<char>, b: Seq<char>, sep: char)
    ensures
        fields(a.push(sep) + b, sep) == fields(a, sep) + fields(b, sep),
    decreases a.len(),
{
    let rest = seq![sep] + b;
    let joined = a.push(sep) + b;
    assert(joined =~= a + rest);
    lemma_before_append(a, rest, sep);
    let head = before(a, sep);
    if head.len() == a.len() {
        assert(before(rest, sep) =~= Seq::<char>::empty());
        assert(before(joined, sep) =~= a);
        assert(joined.skip(a.len() as int + 1) =~= b);
    } else {
        let tail = a.skip(head.len() as int + 1);
        lemma_fields_join(tail, b, sep);
        assert(joined.skip(head.len() as int + 1) =~= tail.push(sep) + b);
        assert(seq![head] + (fields(tail, sep) + fields(b, sep)) =~= (seq![head] + fields(tail, sep))
            + fields(b, sep));
    }
}

/// The characters of `s`.
pub fn chars_of(s: &str) -> (r: Vec<char>)
    ensures
        r@ == s@,
{
    let mut out: Vec<char> = Vec::new();
    for c in it: s.chars()
        invariant
            out@ == it.seq().take(it.index()),
            it.seq() == s@,
    {
        out.push(c);
    }
    out
}

/// Whether `a` and `b` hold the same characters.
pub fn text_eq(a: &str, b: &str) -> (r: bool)
    ensures
        r == (a@ == b@),
{
    let x = chars_of(a);
    let y = chars_of(b);
    if x.len() != y.len() {
        return false;
    }
    let mut i: usize = 0;
    while i < x.len()
        invariant
            i <= x.len(),
            x.len() == y.len(),
            x@ == a@,
            y@ == b@,
            forall|j: int| 0 <= j < i ==> x[j] == y[j],
        decreases x.len() - i,
    {
        if x[i] != y[i] {
            return false;
        }
        i += 1;
    }
    assert(x@ =~= y@);
    true
}

/// Whether `s` starts with `prefix`.
pub fn starts_with_text(s: &str, prefix: &str) -> (r: bool)
    ensures
        r == prefix@.is_prefix_of(s@),
{
    let a = chars_of(s);
    let p = chars_of(prefix);
    if p.len() > a.len() {
        return false;
    }
    let mut i: usize = 0;
    while i < p.len()
        invariant
            i <= p.len() <= a.len(),
            a@ == s@,
            p@ == prefix@,
            forall|k: int| 0 <= k < i ==> a@[k] == p@[k],
        decreases p.len() - i,
    {
        if a[i] != p[i] {
            assert(s@.subrange(0, p@.len() as int)[i as int] == a@[i as int]);
            return false;
        }
        i += 1;
    }
    assert(prefix@ =~= s@.subrange(0, prefix@.len() as int));
    true
}

fn is_space_char(c: char) -> (r: bool)
    ensures
        r == is_space(c),
{
    ('\u{9}' <= c && c <= '\u{d}') || c == ' ' || c == '\u{85}' || c == '\u{a0}' || c == '\u{1680}'
        || ('\u{2000}' <= c && c <= '\u{200a}') || c == '\u{2028}' || c == '\u{2029}' || c
        == '\u{202f}' || c == '\u{205f}' || c == '\u{3000}'
}

fn fold(c: char) -> (r: u32)
    ensures
        r == folded(c),
{
    if 'A' <= c && c <= 'Z' {
        c as u32 + 32
    } else {
        c as u32
    }
}

/// The bounds of `chars[from..to]` after white space is stripped from both ends.
pub fn trim_bounds(chars: &[char], from: usize, to: usize) -> (r: (usize, usize))
    requires
        from <= to <= chars@.len(),
    ensures
        from <= r.0 <= r.1 <= to,
        chars@.subrange(r.0 as int, r.1 as int) == trim(chars@.subrange(from as int, to as int)),
{
    let mut start: usize = from;
    while start < to && is_space_char(chars[start])
        invariant
            from <= start <= to <= chars@.len(),
            trim_start(chars@.subrange(start as int, to as int)) == trim_start(
                chars@.subrange(from as int, to as int),
            ),
        decreases to - start,
    {
        assert(chars@.subrange(start as int, to as int).skip(1) =~= chars@.subrange(
            start + 1,
            to as int,
        ));
        start += 1;
    }
    let ghost stripped = chars@.subrange(start as int, to as int);
    assert(trim_start(chars@.subrange(from as int, to as int)) == stripped);
    let mut end: usize = to;
    while end > start && is_space_char(chars[end - 1])
        invariant
            from <= start <= end <= to <= chars@.len(),
            trim_end(chars@.subrange(start as int, end as int)) == trim_end(stripped),
        decreases end,
    {
        assert(chars@.subrange(start as int, end as int).drop_last() =~= chars@.subrange(
            start as int,
            end - 1,
        ));
        end -= 1;
    }
    (start, end)
}

/// The first position in `chars[from..to]` that holds `sep`, or `to`.
pub fn find_char(chars: &[char], from: usize, to: usize, sep: char) -> (r: usize)
    requires
        from <= to <= chars@.len(),
    ensures
        from <= r <= to,
        r < to ==> chars@[r as int] == sep,
        chars@.subrange(from as int, r as int) == before(
            chars@.subrange(from as int, to as int),
            sep,
        ),
{
    let mut i: usize = from;
    while i < to && chars[i] != sep
        invariant
            from <= i <= to <= chars@.len(),
            before(chars@.subrange(from as int, to as int), sep) == chars@.subrange(
                from as int,
                i as int,
            ) + before(chars@.subrange(i as int, to as int), sep),
        decreases to - i,
    {
        let ghost rest = chars@.subrange(i as int, to as int);
        assert(rest.skip(1) =~= chars@.subrange(i + 1, to as int));
        assert(chars@.subrange(from as int, i as int) + seq![rest[0]] =~= chars@.subrange(
            from as int,
            i + 1,
        ));
        assert(chars@.subrange(from as int, i as int) + (seq![rest[0]] + before(rest.skip(1), sep))
            =~= chars@.subrange(from as int, i + 1) + before(rest.skip(1), sep));
        i += 1;
    }
    i
}

/// The bounds of the fields of `chars` between occurrences of `sep`.
pub fn field_bounds(chars: &[char], sep: char) -> (r: Vec<(usize, usize)>)
    ensures
        r@.len() == fields(chars@, sep).len(),
        forall|i: int|
            0 <= i < r@.len() ==> (#[trigger] r@[i]).0 <= r@[i].1 <= chars@.len()
                && chars@.subrange(r@[i].0 as int, r@[i].1 as int) == fields(chars@, sep)[i],
{
    let mut out: Vec<(usize, usize)> = Vec::new();
    let ghost all = fields(chars@, sep);
    let mut from: usize = 0;
    assert(chars@.subrange(0, chars@.len() as int) =~= chars@);
    assert(all.skip(0) =~= all);
    loop
        invariant
            from <= chars@.len(),
            all == fields(chars@, sep),
            out@.len() <= all.len(),
            all.skip(out@.len() as int) == fields(
                chars@.subrange(from as int, chars@.len() as int),
                sep,
            ),
            forall|i: int|
                0 <= i < out@.len() ==> (#[trigger] out@[i]).0 <= out@[i].1 <= chars@.len()
                    && chars@.subrange(out@[i].0 as int, out@[i].1 as int) == all[i],
        decreases chars@.len() - from,
    {
        let end = find_char(chars, from, chars.len(), sep);
        let ghost rest = chars@.subrange(from as int, chars@.len() as int);
        let ghost k = out@.len() as int;
        assert(fields(rest, sep).len() > 0);
        assert(all.skip(k)[0] == all[k]);
        out.push((from, end));
        if end == chars.len() {
            assert(fields(rest, sep) =~= seq![rest]);
            return out;
        }
        proof {
            let tail = chars@.subrange(end + 1, chars@.len() as int);
            assert(rest.skip(before(rest, sep).len() as int + 1) =~= tail);
            assert(fields(rest, sep) == seq![before(rest, sep)] + fields(tail, sep));
            assert(all.skip(k + 1) =~= fields(rest, sep).skip(1));
            assert(fields(rest, sep).skip(1) =~= fields(tail, sep));
        }
        from = end + 1;
    }
}

/// Whether `chars[from..to]` spells `word`, whatever the case of its ASCII letters.
pub fn spells(chars: &[char], from: usize, to: usize, word: &str) -> (r: bool)
    requires
        from <= to <= chars@.len(),
    ensures
        r == same_ignoring_case(chars@.subrange(from as int, to as int), word@),
{
    let w = chars_of(word);
    let ghost part = chars@.subrange(from as int, to as int);
    if w.len() != to - from {
        return false;
    }
    let mut i: usize = 0;
    while i < w.len()
        invariant
            i <= w.len(),
            w.len() == to - from,
            to <= chars@.len(),
            w@ == word@,
            part == chars@.subrange(from as int, to as int),
            forall|j: int| 0 <= j < i ==> folded(#[trigger] part[j]) == folded(w@[j]),
        decreases w.len() - i,
    {
        assert(part[i as int] == chars@[from + i]);
        if fold(chars[from + i]) != fold(w[i]) {
            return false;
        }
        i += 1;
    }
    true
}

fn digit_text(d: u64) -> (r: &'static str)
    requires
        d < 10,
    ensures
        r@ == seq![digit(d as int)],
{
    proof {
        reveal_strlit("0");
        reveal_strlit("1");
        reveal_strlit("2");
        reveal_strlit("3");
        reveal_strlit("4");
        reveal_strlit("5");
        reveal_strlit("6");
        reveal_strlit("7");
        reveal_strlit("8");
        reveal_strlit("9");
    }
    let r: &'static str = if d == 0 {
        "0"
    } else if d == 1 {
        "1"
    } else if d == 2 {
        "2"
    } else if d == 3 {
        "3"
    } else if d == 4 {
        "4"
    } else if d == 5 {
        "5"
    } else if d == 6 {
        "6"
    } else if d == 7 {
        "7"
    } else if d == 8 {
        "8"
    } else {
        "9"
    };
    assert(r@ =~= seq![digit(d as int)]);
    r
}

/// `n` in decimal.
pub fn decimal_text(n: u64) -> (r: String)
    ensures
        r@ == decimal(n as nat),
    decreases n,
{
    if n < 10 {
        String::from_str(digit_text(n))
    } else {
        let mut r = decimal_text(n / 10);
        r.append(digit_text(n % 10));
        assert(r@ =~= decimal((n / 10) as nat).push(digit(n as int % 10)));
        r
    }
}

proof fn lemma_digits_value_grows(s: Seq<char>, k: int)
    requires
        0 <= k <= s.len(),
        all_digits(s),
    ensures
        digits_value(s.take(k)) <= digits_value(s),
    decreases s.len() - k,
{
    if k < s.len() {
        lemma_digits_value_grows(s, k + 1);
        assert(s.take(k + 1).drop_last() =~= s.take(k));
    } else {
        assert(s.take(k) =~= s);
    }
}

/// `s` read as a `u64`.
pub fn parse_u64(s: &str) -> (r: Option<u64>)
    ensures
        r == parsed_u64(s@),
{
    let chars = chars_of(s);
    let start: usize = if chars.len() > 0 && chars[0] == '+' {
        1
    } else {
        0
    };
    let ghost digits = s@.skip(start as int);
    assert(s@.skip(0) =~= s@);
    if chars.len() == start {
        return None;
    }
    let mut value: u64 = 0;
    let mut i: usize = start;
    while i < chars.len()
        invariant
            start <= i <= chars.len(),
            chars@ == s@,
            digits == s@.skip(start as int),
            digits.len() > 0,
            parsed_u64(s@) == (if all_digits(digits) && digits_value(digits) <= u64::MAX {
                Some(digits_value(digits) as u64)
            } else {
                None
            }),
            forall|j: int| 0 <= j < i - start ==> '0' <= #[trigger] digits[j] <= '9',
            value == digits_value(digits.take(i - start)),
        decreases chars.len() - i,
    {
        let c = chars[i];
        assert(digits[i - start] == c);
        if !('0' <= c && c <= '9') {
            return None;
        }
        let d: u64 = c as u64 - 48;
        assert(digits.take(i - start + 1).drop_last() =~= digits.take(i - start));
        proof {
            if all_digits(digits) {
                lemma_digits_value_grows(digits, i - start + 1);
            }
        }
        if value > (u64::MAX - d) / 10 {
            return None;
        }
        value = value * 10 + d;
        i += 1;
    }
    assert(digits.take(chars.len() - start) =~= digits);
    Some(value)
}

/// Whether `part` occurs in `s`.
pub fn contains_text(s: &str, part: &str) -> (r: bool)
    ensures
        r == has_part(s@, part@),
{
    let a = chars_of(s);
    let p = chars_of(part);
    if p.len() > a.len() {
        return false;
    }
    let mut i: usize = 0;
    while i <= a.len() - p.len()
        invariant
            p.len() <= a.len(),
            i <= a.len() - p.len() + 1,
            a@ == s@,
            p@ == part@,
            forall|k: int| 0 <= k < i ==> #[trigger] s@.subrange(k, k + part@.len()) != part@,
        decreases a.len() - p.len() + 1 - i,
    {
        let mut j: usize = 0;
        while j < p.len() && a[i + j] == p[j]
            invariant
                j <= p.len(),
                i <= a.len() - p.len(),
                p.len() <= a.len(),
                forall|k: int| 0 <= k < j ==> a@[i + k] == p@[k],
            decreases p.len() - j,
        {
            j += 1;
        }
        if j == p.len() {
            assert(s@.subrange(i as int, i + part@.len()) =~= part@);
            return true;
        }
        assert(s@.subrange(i as int, i + part@.len())[j as int] == a@[i + j]);
        if i == a.len() - p.len() {
            return false;
        }
        i += 1;
    }
    false
}

/// Whether `s` holds nothing but white space.
pub open spec fn is_blank(s: Seq<char>) -> bool {
    forall|i: int| 0 <= i < s.len() ==> is_space(#[trigger] s[i])
}

/// Whether `s` has no white space at either end.
pub open spec fn has_bare_ends(s: Seq<char>) -> bool {
    s.len() > 0 ==> !is_space(s[0]) && !is_space(s.last())
}

proof fn lemma_trim_start(s: Seq<char>)
    ensures
        trim_start(s).len() <= s.len(),
        trim_start(s) == s.skip(s.len() - trim_start(s).len()),
        is_blank(s.take(s.len() - trim_start(s).len())),
        trim_start(s).len() > 0 ==> !is_space(trim_start(s)[0]),
    decreases s.len(),
{
    if s.len() > 0 && is_space(s[0]) {
        let rest = s.skip(1);
        lemma_trim_start(rest);
        let n = s.len() - trim_start(s).len();
        assert(s.skip(n) =~= rest.skip(n - 1));
        assert forall|i: int| 0 <= i < n implies is_space(#[trigger] s.take(n)[i]) by {
            if i > 0 {
                assert(rest.take(n - 1)[i - 1] == s[i]);
            }
        }
    } else {
        assert(s.skip(0) =~= s);
    }
}

proof fn lemma_trim_end(s: Seq<char>)
    ensures
        trim_end(s).len() <= s.len(),
        trim_end(s) == s.take(trim_end(s).len() as int),
        is_blank(s.skip(trim_end(s).len() as int)),
        trim_end(s).len() > 0 ==> !is_space(trim_end(s).last()),
    decreases s.len(),
{
    if s.len() > 0 && is_space(s.last()) {
        let rest = s.drop_last();
        lemma_trim_end(rest);
        let n = trim_end(s).len() as int;
        assert(s.take(n) =~= rest.take(n));
        assert forall|i: int| 0 <= i < s.len() - n implies is_space(#[trigger] s.skip(n)[i]) by {
            if i < rest.len() - n {
                assert(rest.skip(n)[i] == s[n + i]);
            }
        }
    } else {
        assert(s.take(s.len() as int) =~= s);
    }
}

proof fn lemma_trim_start_of(a: Seq<char>, s: Seq<char>)
    requires
        is_blank(a),
        s.len() > 0 ==> !is_space(s[0]),
    ensures
        trim_start(a + s) == s,
    decreases a.len(),
{
    if a.len() > 0 {
        assert(is_space(a[0]));
        assert forall|i: int| 0 <= i < a.skip(1).len() implies is_space(#[trigger] a.skip(1)[i]) by {
            assert(is_space(a[i + 1]));
        }
        lemma_trim_start_of(a.skip(1), s);
        assert((a + s).skip(1) =~= a.skip(1) + s);
    } else {
        assert(a + s =~= s);
    }
}

proof fn lemma_trim_end_of(s: Seq<char>, b: Seq<char>)
    requires
        is_blank(b),
        s.len() > 0 ==> !is_space(s.last()),
    ensures
        trim_end(s + b) == s,
    decreases b.len(),
{
    if b.len() > 0 {
        assert(is_space(b[b.len() - 1]));
        assert forall|i: int| 0 <= i < b.drop_last().len() implies is_space(
            #[trigger] b.drop_last()[i],
        ) by {
            assert(is_space(b[i]));
        }
        lemma_trim_end_of(s, b.drop_last());
        assert((s + b).drop_last() =~= s + b.drop_last());
    } else {
        assert(s + b =~= s);
    }
}

/// Trimming takes away the white space around a text and nothing else.
pub proof fn law_trim_takes_the_outer_space(a: Seq<char>, s: Seq<char>, b: Seq<char>)
    requires
        is_blank(a),
        is_blank(b),
        has_bare_ends(s),
    ensures
        trim(a + s + b) == s,
{
    if s.len() > 0 {
        assert(a + s + b =~= a + (s + b));
        assert((s + b)[0] == s[0]);
        lemma_trim_start_of(a, s + b);
        lemma_trim_end_of(s, b);
    } else {
        let all = a + s + b;
        assert forall|i: int| 0 <= i < all.len() implies is_space(#[trigger] all[i]) by {
            if i < a.len() {
                assert(is_space(a[i]));
            } else {
                assert(is_space(b[i - a.len()]));
            }
        }
        lemma_trim_start_of(all, Seq::empty());
        assert(all + Seq::<char>::empty() =~= all);
        assert(trim(all) =~= s);
    }
}

/// What is left of a text after trimming is a stretch of it with bare ends, and
/// nothing but white space stood around it.
pub proof fn law_trimmed_text_is_bare(s: Seq<char>)
    ensures
        has_bare_ends(trim(s)),
        exists|a: Seq<char>, b: Seq<char>|
            is_blank(a) && is_blank(b) && #[trigger] (a + trim(s) + b) == s,
{
    lemma_trim_start(s);
    let middle = trim_start(s);
    lemma_trim_end(middle);
    let a = s.take(s.len() - middle.len());
    let b = middle.skip(trim(s).len() as int);
    if trim(s).len() > 0 {
        assert(trim(s)[0] == middle[0]);
    }
    assert(a + trim(s) + b =~= s);
}

/// Of the characters that a header value can hold as text, the space and the tab
/// are white space.
pub proof fn law_header_space(c: char)
    requires
        ' ' <= c <= '~' || c == '\t',
    ensures
        is_space(c) <==> c == ' ' || c == '\t',
{
}

/// What stands before a separator is the longest start of the text without one.
pub proof fn law_before_ends_at_the_separator(s: Seq<char>, sep: char)
    ensures
        before(s, sep).is_prefix_of(s),
        !before(s, sep).contains(sep),
        before(s, sep) == s || s[before(s, sep).len() as int] == sep,
        before(s, sep) == s <==> !s.contains(sep),
    decreases s.len(),
{
    if s.len() > 0 && s[0] != sep {
        let rest = s.skip(1);
        law_before_ends_at_the_separator(rest, sep);
        let head = before(s, sep);
        let tail = before(rest, sep);
        assert(head =~= seq![s[0]] + tail);
        assert(head =~= s.take(head.len() as int)) by {
            assert(tail =~= rest.take(tail.len() as int));
        }
        assert forall|i: int| 0 <= i < head.len() implies head[i] != sep by {
            if i > 0 {
                assert(tail.contains(tail[i - 1]));
            }
        }
        if tail == rest {
            assert(head =~= s);
        }
        if s.contains(sep) {
            let i = choose|i: int| 0 <= i < s.len() && s[i] == sep;
            assert(rest[i - 1] == sep);
            assert(rest.contains(sep));
        }
        if rest.contains(sep) {
            let i = choose|i: int| 0 <= i < rest.len() && rest[i] == sep;
            assert(s[i + 1] == sep);
        }
    } else if s.len() > 0 {
        assert(s.contains(s[0]));
        assert(before(s, sep) =~= s.take(0));
    } else {
        assert(before(s, sep) =~= s);
    }
}

/// Texts with a separator between each two of them.
pub open spec fn joined(parts: Seq<Seq<char>>, sep: char) -> Seq<char>
    decreases parts.len(),
{
    if parts.len() == 0 {
        Seq::empty()
    } else if parts.len() == 1 {
        parts[0]
    } else {
        parts[0].push(sep) + joined(parts.drop_first(), sep)
    }
}

/// Fields are what a text falls into at its separators: there is at least one,
/// none holds a separator, and put together again they are the text.
pub proof fn law_fields_come_together(s: Seq<char>, sep: char)
    ensures
        fields(s, sep).len() > 0,
        forall|i: int|
            0 <= i < fields(s, sep).len() ==> !(#[trigger] fields(s, sep)[i]).contains(sep),
        joined(fields(s, sep), sep) == s,
    decreases s.len(),
{
    let head = before(s, sep);
    law_before_ends_at_the_separator(s, sep);
    if head.len() >= s.len() {
        assert(head =~= s);
        assert(fields(s, sep) =~= seq![s]);
    } else {
        let rest = s.skip(head.len() as int + 1);
        law_fields_come_together(rest, sep);
        let all = fields(s, sep);
        assert(all =~= seq![head] + fields(rest, sep));
        assert(all.drop_first() =~= fields(rest, sep));
        assert forall|i: int| 0 <= i < all.len() implies !(#[trigger] all[i]).contains(sep) by {
            if i > 0 {
                assert(all[i] == fields(rest, sep)[i - 1]);
            }
        }
        assert(head.push(sep) + rest =~= s);
    }
}

/// A text without separators is its one field.
pub proof fn law_one_field(s: Seq<char>, sep: char)
    requires
        !s.contains(sep),
    ensures
        fields(s, sep) == seq![s],
{
    law_before_ends_at_the_separator(s, sep);
}

/// Two characters are the same but for case exactly where they are equal or the
/// two forms of one ASCII letter.
pub proof fn law_case_is_of_ascii_letters(c: char, d: char)
    ensures
        same_ignoring_case(seq![c], seq![d]) <==> c == d || ('A' <= c <= 'Z' && d as int == c as int
            + 32) || ('A' <= d <= 'Z' && c as int == d as int + 32),
{
    assert(seq![c][0] == c && seq![d][0] == d);
    if folded(c) == folded(d) {
        assert(folded(seq![c][0]) == folded(seq![d][0]));
    }
}

/// Two texts are the same but for case exactly where they are so piece by piece.
pub proof fn law_case_goes_by_pieces(a: Seq<char>, b: Seq<char>, c: Seq<char>, d: Seq<char>)
    requires
        a.len() == c.len(),
    ensures
        same_ignoring_case(a + b, c + d) <==> same_ignoring_case(a, c) && same_ignoring_case(b, d),
{
    if same_ignoring_case(a + b, c + d) {
        assert forall|i: int| 0 <= i < a.len() implies folded(#[trigger] a[i]) == folded(c[i]) by {
            assert(folded((a + b)[i]) == folded((c + d)[i]));
        }
        assert forall|i: int| 0 <= i < b.len() implies folded(#[trigger] b[i]) == folded(d[i]) by {
            assert(folded((a + b)[a.len() + i]) == folded((c + d)[a.len() + i]));
        }
    }
    if same_ignoring_case(a, c) && same_ignoring_case(b, d) {
        assert forall|i: int| 0 <= i < (a + b).len() implies folded(#[trigger] (a + b)[i])
            == folded((c + d)[i]) by {
            if i < a.len() {
                assert(folded(a[i]) == folded(c[i]));
            } else {
                assert(folded(b[i - a.len()]) == folded(d[i - a.len()]));
            }
        }
    }
}

proof fn lemma_folded_char(c: char)
    ensures
        (folded(c) as char) as u32 == folded(c),
        folded(folded(c) as char) == folded(c),
{
    char_is_scalar(c);
    char_u32_cast(c, c as u32);
    if 'A' <= c <= 'Z' {
        let u = folded(c);
        assert(97 <= u <= 122);
        assert((u as char) as u32 == u);
    }
}

/// Texts that are the same but for case have one form in small letters, and that
/// form is the same as they are but for case.
pub proof fn law_lower_is_one_for_all_cases(a: Seq<char>, b: Seq<char>)
    ensures
        same_ignoring_case(a, b) <==> lower(a) == lower(b),
        same_ignoring_case(lower(a), a),
{
    assert forall|i: int| 0 <= i < a.len() implies folded(#[trigger] lower(a)[i]) == folded(a[i])
        && folded(a[i]) == lower(a)[i] as u32 by {
        lemma_folded_char(a[i]);
    }
    assert forall|i: int| 0 <= i < b.len() implies folded(b[i]) == #[trigger] lower(b)[i] as u32 by {
        lemma_folded_char(b[i]);
    }
    if same_ignoring_case(a, b) {
        assert(lower(a) =~= lower(b));
    }
    if lower(a) == lower(b) {
        assert(lower(a).len() == a.len() && lower(b).len() == b.len());
        assert forall|i: int| 0 <= i < a.len() implies folded(#[trigger] a[i]) == folded(b[i]) by {
            assert(lower(a)[i] == lower(b)[i]);
        }
    }
}

/// A number in decimal is made of digits, has no leading zero, and reads as that
/// number.
pub proof fn law_decimal_reads_back(n: nat)
    ensures
        decimal(n).len() > 0,
        all_digits(decimal(n)),
        digits_value(decimal(n)) == n,
        n > 0 ==> decimal(n)[0] != '0',
    decreases n,
{
    reveal_with_fuel(digits_value, 2);
    if n < 10 {
        let s = decimal(n);
        assert(s.drop_last() =~= Seq::<char>::empty());
        assert(s[0] as int == 48 + n);
    } else {
        law_decimal_reads_back(n / 10);
        let s = decimal(n);
        assert(s.drop_last() =~= decimal(n / 10));
        assert(s.last() as int == 48 + n % 10);
        assert forall|i: int| 0 <= i < s.len() implies '0' <= #[trigger] s[i] <= '9' by {
            if i < s.len() - 1 {
                assert(s[i] == decimal(n / 10)[i]);
            }
        }
        assert(s[0] == decimal(n / 10)[0]);
    }
}

/// A leading zero adds nothing to what digits spell, and a further digit makes
/// ten of it and adds itself.
pub proof fn law_digits_are_decimal(s: Seq<char>, d: char)
    requires
        '0' <= d <= '9',
        all_digits(s),
    ensures
        digits_value(s.push(d)) == 10 * digits_value(s) + (d as int - 48),
        digits_value(seq!['0'] + s) == digits_value(s),
    decreases s.len(),
{
    assert(s.push(d).drop_last() =~= s);
    let padded = seq!['0'] + s;
    if s.len() == 0 {
        assert(padded.drop_last() =~= Seq::<char>::empty());
        assert(padded.last() == '0');
        assert(digits_value(Seq::<char>::empty()) == 0);
        assert(digits_value(s) == 0);
    } else {
        let rest = s.drop_last();
        assert forall|i: int| 0 <= i < rest.len() implies '0' <= #[trigger] rest[i] <= '9' by {
            assert(s[i] == rest[i]);
        }
        law_digits_are_decimal(rest, '0');
        assert(padded.drop_last() =~= seq!['0'] + rest);
        assert(padded.last() == s.last());
    }
}

/// Exactly the numbers below 2^64 are read, from their digits alone or after a
/// plus sign.
pub proof fn law_numbers_are_read(n: nat)
    ensures
        n <= u64::MAX ==> parsed_u64(decimal(n)) == Some(n as u64),
        n > u64::MAX ==> parsed_u64(decimal(n)) is None,
        parsed_u64(seq!['+'] + decimal(n)) == parsed_u64(decimal(n)),
{
    law_decimal_reads_back(n);
    let s = decimal(n);
    assert('0' <= s[0] <= '9');
    let signed = seq!['+'] + s;
    assert(signed.skip(1) =~= s);
}

/// What is no number is not read: nothing at all, or anything but digits after
/// an optional plus sign.
pub proof fn law_other_texts_are_not_read(s: Seq<char>)
    ensures
        s.len() == 0 || s == seq!['+'] ==> parsed_u64(s) is None,
        (exists|i: int| 0 <= i < s.len() && !('0' <= #[trigger] s[i] <= '9') && (i > 0 || s[i]
            != '+')) ==> parsed_u64(s) is None,
        parsed_u64(s) matches Some(n) ==> (n as nat == digits_value(s) || (s[0] == '+' && n as nat
            == digits_value(s.skip(1)))),
{
    if s == seq!['+'] {
        assert(s.skip(1).len() == 0);
    }
    if exists|i: int| 0 <= i < s.len() && !('0' <= #[trigger] s[i] <= '9') && (i > 0 || s[i] != '+') {
        let i = choose|i: int|
            0 <= i < s.len() && !('0' <= #[trigger] s[i] <= '9') && (i > 0 || s[i] != '+');
        if s[0] == '+' {
            assert(s.skip(1)[i - 1] == s[i]);
        }
    }
}

/// A text has another as a part exactly where it is that part with something,
/// or nothing, on either side.
pub proof fn law_parts_stand_between(s: Seq<char>, part: Seq<char>)
    ensures
        has_part(s, part) <==> exists|a: Seq<char>, b: Seq<char>| #[trigger] (a + part + b) == s,
{
    if has_part(s, part) {
        let i = choose|i: int|
            0 <= i <= s.len() - part.len() && #[trigger] s.subrange(i, i + part.len()) == part;
        assert(s.take(i) + part + s.skip(i + part.len()) =~= s);
    }
    if exists|a: Seq<char>, b: Seq<char>| #[trigger] (a + part + b) == s {
        let (a, b) = choose|a: Seq<char>, b: Seq<char>| #[trigger] (a + part + b) == s;
        assert(s.subrange(a.len() as int, a.len() as int + part.len()) =~= part);
    }
}

/// A text that is there is seen with its characters, and one that is not is not.
pub proof fn law_texts_are_seen_as_they_are(s: &str)
    ensures
        optional_view(Some(s)) == Some(s@),
        optional_view(None) is None,
{
}

/// White space is told by the code of a character. In ASCII it is the space and
/// the five codes from the tab to the carriage return. Beyond, it is the next
/// line, the spaces that do not break, Ogham's, mathematics' and the ideographs',
/// the spaces of fixed width up to the hair space, and the two separators.
pub proof fn law_white_space_goes_by_code(c: char)
    ensures
        c as u32 <= 0x7f ==> (is_space(c) <==> 9 <= c as u32 <= 13 || c as u32 == 32),
        0x7f < c as u32 <= 0xff ==> (is_space(c) <==> c as u32 == 133 || c as u32 == 160),
        0xff < c as u32 <= 0x1fff ==> (is_space(c) <==> c as u32 == 5760),
        0x1fff < c as u32 <= 0x200a ==> is_space(c),
        0x200a < c as u32 <= 0x2fff ==> (is_space(c) <==> c as u32 == 8232 || c as u32 == 8233
            || c as u32 == 8239 || c as u32 == 8287),
        0x2fff < c as u32 ==> (is_space(c) <==> c as u32 == 12288),
{
}

} // verus!
