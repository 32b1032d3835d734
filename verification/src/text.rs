//! Character-level building blocks: whitespace, trimming, case folding,
//! decimal numerals and splitting, each with its mathematical meaning.

use vstd::prelude::*;
use vstd::utf8::is_ascii_chars;

verus! {

/// Whether `c` carries the Unicode `White_Space` property.
pub open spec fn is_whitespace(c: char) -> bool {
    let u = c as u32;
    ||| 0x09 <= u <= 0x0D
    ||| u == 0x20
    ||| u == 0x85
    ||| u == 0xA0
    ||| u == 0x1680
    ||| 0x2000 <= u <= 0x200A
    ||| u == 0x2028
    ||| u == 0x2029
    ||| u == 0x202F
    ||| u == 0x205F
    ||| u == 0x3000
}

/// Index of the first character at or after `i` that is not whitespace,
/// or the length of `s` when only whitespace follows.
pub open spec fn skip_whitespace(s: Seq<char>, i: int) -> int
    decreases s.len() - i,
{
    if 0 <= i < s.len() && is_whitespace(s[i]) {
        skip_whitespace(s, i + 1)
    } else {
        i
    }
}

/// One past the last character before `j` that is not whitespace, or zero
/// when only whitespace precedes.
pub open spec fn skip_whitespace_back(s: Seq<char>, j: int) -> int
    decreases j,
{
    if 0 < j <= s.len() && is_whitespace(s[j - 1]) {
        skip_whitespace_back(s, j - 1)
    } else {
        j
    }
}

/// `s` without its leading and trailing whitespace.
pub open spec fn trimmed(s: Seq<char>) -> Seq<char> {
    let start = skip_whitespace(s, 0);
    let end = skip_whitespace_back(s, s.len() as int);
    if start < end {
        s.subrange(start, end)
    } else {
        Seq::empty()
    }
}

/// Whether `s` holds nothing but whitespace.
pub open spec fn is_blank(s: Seq<char>) -> bool {
    forall|i: int| 0 <= i < s.len() ==> is_whitespace(#[trigger] s[i])
}

/// The lowercase form of an ASCII letter; every other character is itself.
pub open spec fn ascii_lower(c: char) -> char {
    if 'A' <= c <= 'Z' {
        ((c as u8 + 32) as u8) as char
    } else {
        c
    }
}

/// What `str::to_lowercase` returns for `s`.
pub uninterp spec fn unicode_lowercase(s: Seq<char>) -> Seq<char>;

/// The lowercase form of `s`: ASCII text is folded letter by letter,
/// anything else by the Unicode rules of the standard library.
pub open spec fn lowercase(s: Seq<char>) -> Seq<char> {
    if is_ascii_chars(s) {
        s.map_values(|c: char| ascii_lower(c))
    } else {
        unicode_lowercase(s)
    }
}

/// The canonical name of a raw key name: trimmed, then lowercased.
pub open spec fn key_name(raw: Seq<char>) -> Seq<char> {
    lowercase(trimmed(raw))
}

/// Whether `c` is a lowercase ASCII letter or a digit.
pub open spec fn is_plain(c: char) -> bool {
    'a' <= c <= 'z' || '0' <= c <= '9'
}

/// Whether `s` is a plain name: not empty, and made of lowercase ASCII
/// letters and digits only.
pub open spec fn is_plain_name(s: Seq<char>) -> bool {
    s.len() > 0 && forall|i: int| 0 <= i < s.len() ==> is_plain(#[trigger] s[i])
}

/// The decimal digit for `d`, which is meant to lie in `0..=9`.
pub open spec fn digit_char(d: int) -> char {
    if d <= 0 {
        '0'
    } else if d == 1 {
        '1'
    } else if d == 2 {
        '2'
    } else if d == 3 {
        '3'
    } else if d == 4 {
        '4'
    } else if d == 5 {
        '5'
    } else if d == 6 {
        '6'
    } else if d == 7 {
        '7'
    } else if d == 8 {
        '8'
    } else {
        '9'
    }
}

/// The decimal numeral of `n`, without leading zeros.
pub open spec fn decimal(n: nat) -> Seq<char>
    decreases n,
{
    if n < 10 {
        seq![digit_char(n as int)]
    } else {
        decimal(n / 10).push(digit_char((n % 10) as int))
    }
}

/// The decimal numeral of `n`, with a minus sign where it is negative.
pub open spec fn signed_decimal(n: int) -> Seq<char> {
    if n < 0 {
        seq!['-'] + decimal((-n) as nat)
    } else {
        decimal(n as nat)
    }
}

/// The value of a decimal digit, or `None` for any other character.
pub open spec fn digit_value(c: char) -> Option<int> {
    if '0' <= c <= '9' {
        Some(c as int - '0' as int)
    } else {
        None
    }
}

/// The number that a string of decimal digits stands for, or `None` where
/// the string is empty or holds anything but digits.
pub open spec fn digits_value(s: Seq<char>) -> Option<int>
    decreases s.len(),
{
    if s.len() == 0 {
        None
    } else if s.len() == 1 {
        digit_value(s[0])
    } else {
        match (digits_value(s.drop_last()), digit_value(s.last())) {
            (Some(high), Some(low)) => Some(10 * high + low),
            _ => None,
        }
    }
}

/// The pieces of `s` between occurrences of `sep`, in order. There is always
/// one piece more than there are separators, so the empty string has one
/// empty piece.
pub open spec fn split_on(s: Seq<char>, sep: char) -> Seq<Seq<char>>
    decreases s.len(),
{
    if s.len() == 0 {
        seq![Seq::<char>::empty()]
    } else {
        let before = split_on(s.drop_last(), sep);
        if s.last() == sep {
            before.push(Seq::<char>::empty())
        } else {
            before.drop_last().push(before.last().push(s.last()))
        }
    }
}

/// A string is blank exactly when trimming leaves nothing.
pub proof fn lemma_trimmed_empty_iff_blank(s: Seq<char>)
    ensures
        trimmed(s).len() == 0 <==> is_blank(s),
{
    lemma_skip_whitespace(s, 0);
    lemma_skip_whitespace_back(s, s.len() as int);
    let start = skip_whitespace(s, 0);
    let end = skip_whitespace_back(s, s.len() as int);
    if is_blank(s) {
        if start < s.len() {
            assert(is_whitespace(s[start]));
        }
    } else {
        let k = choose|k: int| 0 <= k < s.len() && !is_whitespace(s[k]);
        assert(start <= k < end);
    }
}

/// Everything `skip_whitespace` passes over is whitespace, and it stops at
/// the first character that is not.
pub proof fn lemma_skip_whitespace(s: Seq<char>, i: int)
    requires
        0 <= i <= s.len(),
    ensures
        i <= skip_whitespace(s, i) <= s.len(),
        forall|k: int| i <= k < skip_whitespace(s, i) ==> is_whitespace(#[trigger] s[k]),
        skip_whitespace(s, i) < s.len() ==> !is_whitespace(s[skip_whitespace(s, i)]),
    decreases s.len() - i,
{
    if i < s.len() && is_whitespace(s[i]) {
        lemma_skip_whitespace(s, i + 1);
    }
}

/// Everything `skip_whitespace_back` passes over is whitespace, and it stops
/// behind the last character that is not.
pub proof fn lemma_skip_whitespace_back(s: Seq<char>, j: int)
    requires
        0 <= j <= s.len(),
    ensures
        0 <= skip_whitespace_back(s, j) <= j,
        forall|k: int| skip_whitespace_back(s, j) <= k < j ==> is_whitespace(#[trigger] s[k]),
        skip_whitespace_back(s, j) > 0 ==> !is_whitespace(s[skip_whitespace_back(s, j) - 1]),
    decreases j,
{
    if 0 < j && is_whitespace(s[j - 1]) {
        lemma_skip_whitespace_back(s, j - 1);
    }
}

/// A trimmed string that is not empty neither starts nor ends in whitespace.
pub proof fn lemma_trimmed_ends(s: Seq<char>)
    ensures
        trimmed(s).len() > 0 ==> !is_whitespace(trimmed(s).first()) && !is_whitespace(
            trimmed(s).last(),
        ),
{
    lemma_skip_whitespace(s, 0);
    lemma_skip_whitespace_back(s, s.len() as int);
}

/// Trimming leaves alone a string that neither starts nor ends in whitespace.
pub proof fn lemma_trimmed_fixed(s: Seq<char>)
    requires
        s.len() > 0 ==> !is_whitespace(s.first()) && !is_whitespace(s.last()),
    ensures
        trimmed(s) == s,
{
    if s.len() > 0 {
        assert(s.subrange(0, s.len() as int) =~= s);
    }
}

/// ASCII case folding neither makes nor unmakes whitespace, maps ASCII to
/// ASCII, and changes nothing when applied again.
pub proof fn lemma_ascii_lower(c: char)
    requires
        '\0' <= c <= '\u{7f}',
    ensures
        is_whitespace(ascii_lower(c)) == is_whitespace(c),
        '\0' <= ascii_lower(c) <= '\u{7f}',
        ascii_lower(ascii_lower(c)) == ascii_lower(c),
{
}

/// A string with one more character is ASCII exactly when the string and
/// the character are.
pub proof fn lemma_ascii_push(s: Seq<char>, c: char)
    ensures
        is_ascii_chars(s.push(c)) <==> is_ascii_chars(s) && c <= '\u{7f}',
{
    let t = s.push(c);
    if is_ascii_chars(s) && c <= '\u{7f}' {
        assert forall|k: int| 0 <= k < t.len() implies '\0' <= #[trigger] t[k] <= '\u{7f}' by {
            if k < s.len() {
                assert(t[k] == s[k]);
            }
        }
    }
    if is_ascii_chars(t) {
        assert(t[s.len() as int] == c);
        assert forall|k: int| 0 <= k < s.len() implies '\0' <= #[trigger] s[k] <= '\u{7f}' by {
            assert(s[k] == t[k]);
        }
    }
}

/// Where a key name is ASCII once it is trimmed, its canonical name is
/// ASCII and is its own canonical name.
pub proof fn lemma_key_name_stable_ascii(raw: Seq<char>)
    requires
        is_ascii_chars(trimmed(raw)),
    ensures
        is_ascii_chars(key_name(raw)),
        key_name(key_name(raw)) == key_name(raw),
{
    let t = trimmed(raw);
    let n = key_name(raw);
    assert(n == t.map_values(|c: char| ascii_lower(c)));
    assert forall|i: int| 0 <= i < n.len() implies '\0' <= #[trigger] n[i] <= '\u{7f}'
        && is_whitespace(n[i]) == is_whitespace(t[i]) && ascii_lower(n[i]) == n[i] by {
        lemma_ascii_lower(t[i]);
    }
    lemma_trimmed_ends(raw);
    lemma_trimmed_fixed(n);
    assert(n.map_values(|c: char| ascii_lower(c)) =~= n);
}

/// A plain name is ASCII and is its own canonical name.
pub proof fn lemma_plain_name(s: Seq<char>)
    requires
        is_plain_name(s),
    ensures
        key_name(s) == s,
        is_ascii_chars(s),
{
    assert(is_plain(s.first()));
    assert(is_plain(s.last()));
    lemma_trimmed_fixed(s);
    assert(is_ascii_chars(s)) by {
        assert forall|i: int| 0 <= i < s.len() implies '\0' <= #[trigger] s[i] <= '\u{7f}' by {
            assert(is_plain(s[i]));
        }
    }
    assert(s.map_values(|c: char| ascii_lower(c)) =~= s) by {
        assert forall|i: int| 0 <= i < s.len() implies ascii_lower(#[trigger] s[i]) == s[i] by {
            assert(is_plain(s[i]));
        }
    }
}

/// A decimal numeral is a plain name.
pub proof fn lemma_decimal_plain(n: nat)
    ensures
        is_plain_name(decimal(n)),
    decreases n,
{
    if n >= 10 {
        lemma_decimal_plain(n / 10);
        let d = decimal(n);
        let before = decimal(n / 10);
        assert forall|i: int| 0 <= i < d.len() implies is_plain(#[trigger] d[i]) by {
            if i < before.len() {
                assert(d[i] == before[i]);
            }
        }
    }
}

/// A blank key has an empty canonical name, and a key that is ASCII once
/// it is trimmed has an empty canonical name only if it is blank.
pub proof fn lemma_key_name_empty(raw: Seq<char>)
    ensures
        is_blank(raw) ==> key_name(raw).len() == 0,
        is_ascii_chars(trimmed(raw)) && key_name(raw).len() == 0 ==> is_blank(raw),
{
    lemma_trimmed_empty_iff_blank(raw);
    if is_blank(raw) {
        assert(trimmed(raw) =~= Seq::<char>::empty());
        assert(lowercase(Seq::<char>::empty()) =~= Seq::<char>::empty());
    }
}

/// Whether `c` is Unicode whitespace.
pub fn char_is_whitespace(c: char) -> (b: bool)
    ensures
        b == is_whitespace(c),
{
    let u: u32 = c as u32;
    (0x09 <= u && u <= 0x0D) || u == 0x20 || u == 0x85 || u == 0xA0 || u == 0x1680 || (0x2000 <= u
        && u <= 0x200A) || u == 0x2028 || u == 0x2029 || u == 0x202F || u == 0x205F || u == 0x3000
}

/// Folds one ASCII letter to lowercase.
pub fn lower_ascii_char(c: char) -> (r: char)
    ensures
        r == ascii_lower(c),
{
    if 'A' <= c && c <= 'Z' {
        let b: u8 = c as u8;
        (b + 32) as char
    } else {
        c
    }
}

/// The characters of `s`, in order.
pub fn chars_of(s: &str) -> (v: Vec<char>)
    ensures
        v@ == s@,
{
    let mut v: Vec<char> = Vec::new();
    let it = s.chars();
    for c in iter: it
        invariant
            v@ == iter.seq().take(iter.index() as int),
    {
        v.push(c);
    }
    v
}

/// `String::push`: appends the one character `c` to `s`.
#[verifier::external_body]
pub(crate) fn push_char(s: &mut String, c: char)
    ensures
        final(s)@ == old(s)@.push(c),
{
    s.push(c)
}

/// `str::to_lowercase`: the contract only gives the result its name,
/// [`unicode_lowercase`]; nothing else is claimed of it.
#[verifier::external_body]
pub(crate) fn to_unicode_lowercase(s: &str) -> (r: String)
    ensures
        r@ == unicode_lowercase(s@),
{
    s.to_lowercase()
}

/// Where the trimmed part of `v` starts and ends.
fn trim_bounds(v: &Vec<char>) -> (r: (usize, usize))
    ensures
        r.0 == skip_whitespace(v@, 0),
        r.1 == skip_whitespace_back(v@, v@.len() as int),
        r.0 <= v@.len(),
        r.1 <= v@.len(),
{
    let n = v.len();
    let mut start: usize = 0;
    while start < n && char_is_whitespace(v[start])
        invariant
            n == v@.len(),
            start <= n,
            skip_whitespace(v@, 0) == skip_whitespace(v@, start as int),
        decreases n - start,
    {
        start += 1;
    }
    let mut end: usize = n;
    while end > 0 && char_is_whitespace(v[end - 1])
        invariant
            n == v@.len(),
            end <= n,
            skip_whitespace_back(v@, n as int) == skip_whitespace_back(v@, end as int),
        decreases end,
    {
        end -= 1;
    }
    (start, end)
}

/// The canonical name of a raw key name: surrounding whitespace removed and
/// letters lowercased. A blank input gives the empty string.
pub fn canonical_name(raw: &str) -> (name: String)
    ensures
        name@ == key_name(raw@),
{
    let chars = chars_of(raw);
    let (start, end) = trim_bounds(&chars);
    let mut out = String::new();
    if start >= end {
        return out;
    }
    let ghost t = trimmed(raw@);
    let mut ascii = true;
    let mut i: usize = start;
    while i < end
        invariant
            start <= i <= end <= chars@.len(),
            chars@ == raw@,
            t == chars@.subrange(start as int, end as int),
            ascii <==> is_ascii_chars(t.take(i - start)),
        decreases end - i,
    {
        let c = chars[i];
        proof {
            assert(t.take(i + 1 - start) =~= t.take(i - start).push(c));
            lemma_ascii_push(t.take(i - start), c);
        }
        if c > '\u{7f}' {
            ascii = false;
        }
        i += 1;
    }
    assert(t.take(end - start) =~= t);
    let mut j: usize = start;
    while j < end
        invariant
            start <= j <= end <= chars@.len(),
            t == chars@.subrange(start as int, end as int),
            ascii ==> out@ == t.take(j - start).map_values(|c: char| ascii_lower(c)),
            !ascii ==> out@ == t.take(j - start),
        decreases end - j,
    {
        let c = chars[j];
        if ascii {
            push_char(&mut out, lower_ascii_char(c));
        } else {
            push_char(&mut out, c);
        }
        proof {
            let before = t.take(j - start);
            let after = t.take(j + 1 - start);
            assert(after.map_values(|c: char| ascii_lower(c)) =~= before.map_values(
                |c: char| ascii_lower(c),
            ).push(ascii_lower(c)));
        }
        j += 1;
    }
    if ascii {
        out
    } else {
        to_unicode_lowercase(out.as_str())
    }
}

/// The digit character for `d`.
fn digit_of(d: u64) -> (c: char)
    requires
        d < 10,
    ensures
        c == digit_char(d as int),
{
    if d == 0 {
        '0'
    } else if d == 1 {
        '1'
    } else if d == 2 {
        '2'
    } else if d == 3 {
        '3'
    } else if d == 4 {
        '4'
    } else if d == 5 {
        '5'
    } else if d == 6 {
        '6'
    } else if d == 7 {
        '7'
    } else if d == 8 {
        '8'
    } else {
        '9'
    }
}

/// Appends the decimal numeral of `n` to `out`.
pub fn push_decimal(out: &mut String, n: u64)
    ensures
        final(out)@ == old(out)@ + decimal(n as nat),
    decreases n,
{
    if n >= 10 {
        push_decimal(out, n / 10);
    }
    push_char(out, digit_of(n % 10));
}

/// Appends the decimal numeral of `n` to `out`, with a minus sign where
/// `n` is negative.
pub fn push_signed_decimal(out: &mut String, n: i32)
    ensures
        final(out)@ == old(out)@ + signed_decimal(n as int),
{
    if n < 0 {
        push_char(out, '-');
        let magnitude: u64 = (-(n as i64)) as u64;
        push_decimal(out, magnitude);
        assert(old(out)@.push('-') + decimal(magnitude as nat) =~= old(out)@ + (seq!['-']
            + decimal(magnitude as nat)));
    } else {
        push_decimal(out, n as u64);
    }
}

/// Where a prefix of `s` is no number, or is one that is greater than
/// `bound`, the same holds of `s`.
proof fn lemma_digits_value_prefix(s: Seq<char>, n: int, bound: int)
    requires
        0 < n <= s.len(),
        0 <= bound,
        digits_value(s.take(n)) matches Some(v) ==> v > bound,
    ensures
        digits_value(s) matches Some(v) ==> v > bound,
    decreases s.len() - n,
{
    if n < s.len() {
        assert(s.take(n + 1).drop_last() =~= s.take(n));
        lemma_digits_value_prefix(s, n + 1, bound);
    } else {
        assert(s.take(n) =~= s);
    }
}

/// Reads a number written in decimal digits. There is no number where the
/// string is empty, holds anything but digits, or stands for more than a
/// `u32` can hold.
pub fn parse_number(s: &str) -> (r: Option<u32>)
    ensures
        r is Some <==> digits_value(s@) is Some && digits_value(s@)->0 <= u32::MAX,
        r matches Some(n) ==> digits_value(s@) == Some(n as int),
{
    let chars = chars_of(s);
    if chars.len() == 0 {
        return None;
    }
    let mut value: u64 = 0;
    let mut i: usize = 0;
    while i < chars.len()
        invariant
            i <= chars@.len(),
            chars@ == s@,
            value <= u32::MAX,
            i > 0 ==> digits_value(s@.take(i as int)) == Some(value as int),
            i == 0 ==> value == 0,
        decreases chars@.len() - i,
    {
        let c = chars[i];
        proof {
            assert(s@.take(i + 1).drop_last() =~= s@.take(i as int));
        }
        if !('0' <= c && c <= '9') {
            proof {
                lemma_digits_value_prefix(s@, i + 1, u32::MAX as int);
            }
            return None;
        }
        let digit: u64 = (c as u32 - '0' as u32) as u64;
        value = value * 10 + digit;
        if value > u32::MAX as u64 {
            proof {
                lemma_digits_value_prefix(s@, i + 1, u32::MAX as int);
            }
            return None;
        }
        i += 1;
    }
    assert(s@.take(i as int) =~= s@);
    Some(value as u32)
}

/// Splits `s` at every occurrence of `sep`.
pub fn split(s: &str, sep: char) -> (pieces: Vec<String>)
    ensures
        pieces.deep_view() == split_on(s@, sep),
{
    let chars = chars_of(s);
    let mut done: Vec<String> = Vec::new();
    let mut current = String::new();
    let mut i: usize = 0;
    while i < chars.len()
        invariant
            i <= chars@.len(),
            chars@ == s@,
            done.deep_view().push(current@) == split_on(s@.take(i as int), sep),
        decreases chars@.len() - i,
    {
        let c = chars[i];
        proof {
            assert(s@.take(i + 1).drop_last() =~= s@.take(i as int));
        }
        if c == sep {
            done.push(current);
            current = String::new();
        } else {
            push_char(&mut current, c);
        }
        i += 1;
    }
    assert(s@.take(i as int) =~= s@);
    done.push(current);
    done
}

} // verus!
