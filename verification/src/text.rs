//! Character classes, decimal and hexadecimal rendering, and substring search.
use vstd::prelude::*;
use vstd::utf8::{decode_utf8, valid_utf8};

verus! {

/// `c` is an ASCII hexadecimal digit: `0-9`, `a-f` or `A-F`.
pub open spec fn is_hex_digit(c: char) -> bool {
    ||| '0' <= c <= '9'
    ||| 'a' <= c <= 'f'
    ||| 'A' <= c <= 'F'
}

/// Every character of `s` is an ASCII hexadecimal digit.
pub open spec fn all_hex(s: Seq<char>) -> bool {
    forall|i: int| 0 <= i < s.len() ==> is_hex_digit(#[trigger] s[i])
}

/// Returns whether `c` is an ASCII hexadecimal digit.
pub fn is_ascii_hexdigit(c: char) -> (b: bool)
    ensures
        b == is_hex_digit(c),
{
    ('0' <= c && c <= '9') || ('a' <= c && c <= 'f') || ('A' <= c && c <= 'F')
}

/// The character of the digit `d` (below 16) in lower-case hexadecimal;
/// below 10 it is the decimal digit.
pub open spec fn digit_char(d: nat) -> char {
    if d < 10 {
        (48 + d) as char
    } else {
        (87 + d) as char
    }
}

/// The decimal numeral of `n`, without leading zeros.
pub open spec fn decimal(n: nat) -> Seq<char>
    decreases n,
{
    if n < 10 {
        seq![digit_char(n)]
    } else {
        decimal(n / 10).push(digit_char(n % 10))
    }
}

/// The decimal numeral of a signed integer: a `-` before the magnitude of a negative one.
pub open spec fn signed_decimal(i: int) -> Seq<char> {
    if i < 0 {
        seq!['-'] + decimal((-i) as nat)
    } else {
        decimal(i as nat)
    }
}

/// `s` padded on the left with `0` up to `width` characters.
pub open spec fn zero_padded(s: Seq<char>, width: nat) -> Seq<char> {
    if s.len() < width {
        Seq::new((width - s.len()) as nat, |i: int| '0') + s
    } else {
        s
    }
}

/// Lower-case hexadecimal encoding of `bytes`, two characters per byte.
pub open spec fn hex_lower(bytes: Seq<u8>) -> Seq<char>
    decreases bytes.len(),
{
    if bytes.len() == 0 {
        Seq::empty()
    } else {
        let b = bytes.last();
        hex_lower(bytes.drop_last()).push(digit_char((b / 16) as nat)).push(
            digit_char((b % 16) as nat),
        )
    }
}

/// Appends a character to a string (`String::push`).
#[verifier::external_body]
pub(crate) fn push_char(s: &mut String, c: char)
    ensures
        final(s)@ == old(s)@.push(c),
{
    s.push(c);
}

/// The character of the digit `d` (below 16).
pub fn digit_of(d: u8) -> (c: char)
    requires
        d < 16,
    ensures
        c == digit_char(d as nat),
{
    if d < 10 {
        (48 + d) as char
    } else {
        (87 + d) as char
    }
}

/// Appends the decimal numeral of `n` to `s`.
pub fn push_decimal(s: &mut String, n: u64)
    ensures
        final(s)@ == old(s)@ + decimal(n as nat),
    decreases n,
{
    if n >= 10 {
        push_decimal(s, n / 10);
    }
    push_char(s, digit_of((n % 10) as u8));
    assert(final(s)@ =~= old(s)@ + decimal(n as nat));
}

/// The decimal numeral of `n` (what `{}` prints for an unsigned integer).
pub fn decimal_text(n: u64) -> (s: String)
    ensures
        s@ == decimal(n as nat),
{
    let mut s = String::new();
    push_decimal(&mut s, n);
    assert(s@ =~= decimal(n as nat));
    s
}

/// Appends the decimal numeral of the signed `n` to `s`.
pub fn push_signed_decimal(s: &mut String, n: i64)
    ensures
        final(s)@ == old(s)@ + signed_decimal(n as int),
{
    if n < 0 {
        push_char(s, '-');
        let magnitude: u64 = (-(n as i128)) as u64;
        push_decimal(s, magnitude);
        assert(final(s)@ =~= old(s)@ + signed_decimal(n as int));
    } else {
        push_decimal(s, n as u64);
    }
}

/// Appends the lower-case hexadecimal encoding of `bytes` to `s`.
pub fn push_hex_lower(s: &mut String, bytes: &Vec<u8>)
    ensures
        final(s)@ == old(s)@ + hex_lower(bytes@),
{
    let ghost start = s@;
    let mut i: usize = 0;
    while i < bytes.len()
        invariant
            i <= bytes.len(),
            s@ == start + hex_lower(bytes@.take(i as int)),
        decreases bytes.len() - i,
    {
        let b = bytes[i];
        push_char(s, digit_of(b / 16));
        push_char(s, digit_of(b % 16));
        proof {
            assert(bytes@.take(i + 1).drop_last() =~= bytes@.take(i as int));
        }
        i = i + 1;
        assert(s@ =~= start + hex_lower(bytes@.take(i as int)));
    }
    assert(bytes@.take(i as int) =~= bytes@);
}

/// The characters of `s`, one by one.
pub fn chars_of(s: &str) -> (v: Vec<char>)
    ensures
        v@ == s@,
{
    let n = s.unicode_len();
    let mut v: Vec<char> = Vec::new();
    let mut i: usize = 0;
    while i < n
        invariant
            n == s@.len(),
            i <= n,
            v@ == s@.take(i as int),
        decreases n - i,
    {
        v.push(s.get_char(i));
        i = i + 1;
        assert(v@ =~= s@.take(i as int));
    }
    assert(s@.take(n as int) =~= s@);
    v
}

/// `needle` occurs in `hay` as a contiguous run of characters.
pub open spec fn has_substring(hay: Seq<char>, needle: Seq<char>) -> bool {
    exists|i: int|
        0 <= i <= hay.len() - needle.len() && #[trigger] hay.subrange(i, i + needle.len()) == needle
}

/// `needle` occurs in `hay` at position `at`.
fn occurs_at(hay: &Vec<char>, needle: &Vec<char>, at: usize) -> (b: bool)
    requires
        at + needle.len() <= hay.len(),
    ensures
        b == (hay@.subrange(at as int, at + needle.len()) == needle@),
{
    let mut j: usize = 0;
    while j < needle.len()
        invariant
            at + needle.len() <= hay.len(),
            j <= needle.len(),
            forall|k: int| 0 <= k < j ==> hay@[at + k] == needle@[k],
        decreases needle.len() - j,
    {
        if hay[at + j] != needle[j] {
            assert(hay@.subrange(at as int, at + needle.len())[j as int] != needle@[j as int]);
            return false;
        }
        j = j + 1;
    }
    assert(hay@.subrange(at as int, at + needle.len()) =~= needle@);
    true
}

/// Whether `needle` occurs in `hay` (what `str::contains` answers for a string pattern).
pub fn contains_text(hay: &str, needle: &str) -> (b: bool)
    ensures
        b == has_substring(hay@, needle@),
{
    let h = chars_of(hay);
    let n = chars_of(needle);
    if n.len() == 0 {
        assert(hay@.subrange(0, 0int + needle@.len()) =~= needle@);
        return true;
    }
    if n.len() > h.len() {
        return false;
    }
    let last = h.len() - n.len();
    let mut i: usize = 0;
    while i <= last
        invariant
            h@ == hay@,
            n@ == needle@,
            last == h.len() - n.len(),
            n.len() > 0,
            i <= last + 1,
            forall|k: int| 0 <= k < i ==> #[trigger] h@.subrange(k, k + n@.len()) != n@,
        decreases last + 1 - i,
    {
        if occurs_at(&h, &n, i) {
            return true;
        }
        i = i + 1;
    }
    false
}

/// `c` has the Unicode `White_Space` property (the characters that
/// `char::is_whitespace` accepts and at which `str::split_whitespace` splits).
pub open spec fn is_white_space(c: char) -> bool {
    ||| '\u{9}' <= c <= '\u{d}'
    ||| c == ' '
    ||| c == '\u{85}'
    ||| c == '\u{a0}'
    ||| c == '\u{1680}'
    ||| '\u{2000}' <= c <= '\u{200a}'
    ||| c == '\u{2028}'
    ||| c == '\u{2029}'
    ||| c == '\u{202f}'
    ||| c == '\u{205f}'
    ||| c == '\u{3000}'
}

/// Returns whether `c` is white space.
pub fn is_whitespace(c: char) -> (b: bool)
    ensures
        b == is_white_space(c),
{
    ('\u{9}' <= c && c <= '\u{d}') || c == ' ' || c == '\u{85}' || c == '\u{a0}' || c
        == '\u{1680}' || ('\u{2000}' <= c && c <= '\u{200a}') || c == '\u{2028}' || c
        == '\u{2029}' || c == '\u{202f}' || c == '\u{205f}' || c == '\u{3000}'
}

/// The positions `(start, end)` of the words of `s`: its maximal runs of
/// characters that are not white space, from left to right.
pub open spec fn word_spans(s: Seq<char>) -> Seq<(int, int)>
    decreases s.len(),
{
    if s.len() == 0 {
        Seq::empty()
    } else {
        let n = s.len() - 1;
        let p = word_spans(s.take(n));
        if is_white_space(s[n]) {
            p
        } else if n > 0 && !is_white_space(s[n - 1]) {
            p.update(p.len() - 1, (p.last().0, n + 1))
        } else {
            p.push((n, n + 1))
        }
    }
}

/// The words of `s`, in order (what `str::split_whitespace` yields).
pub open spec fn words(s: Seq<char>) -> Seq<Seq<char>> {
    word_spans(s).map_values(|sp: (int, int)| s.subrange(sp.0, sp.1))
}

/// The spans lie inside `s`, each is non-empty, and the last one ends at the
/// end of `s` exactly when `s` ends in a character that is not white space.
pub proof fn lemma_word_spans_bounds(s: Seq<char>)
    ensures
        forall|k: int|
            0 <= k < word_spans(s).len() ==> 0 <= (#[trigger] word_spans(s)[k]).0 < word_spans(
                s,
            )[k].1 <= s.len(),
        s.len() > 0 && !is_white_space(s.last()) ==> word_spans(s).len() > 0
            && word_spans(s).last().1 == s.len(),
        s.len() > 0 && is_white_space(s.last()) ==> (word_spans(s).len() > 0 ==> word_spans(
            s,
        ).last().1 < s.len()),
    decreases s.len(),
{
    if s.len() > 0 {
        let n = s.len() - 1;
        let t = s.take(n);
        lemma_word_spans_bounds(t);
        assert(t.len() > 0 ==> t.last() == s[n - 1]);
        let p = word_spans(t);
        if is_white_space(s[n]) {
        } else if n > 0 && !is_white_space(s[n - 1]) {
            let q = p.update(p.len() - 1, (p.last().0, n + 1));
            assert forall|k: int| 0 <= k < q.len() implies 0 <= (#[trigger] q[k]).0 < q[k].1
                <= s.len() by {
                if k < p.len() - 1 {
                    assert(q[k] == p[k]);
                }
            }
        } else {
            let q = p.push((n, n + 1));
            assert forall|k: int| 0 <= k < q.len() implies 0 <= (#[trigger] q[k]).0 < q[k].1
                <= s.len() by {
                if k < p.len() {
                    assert(q[k] == p[k]);
                }
            }
        }
    }
}

/// Word positions moved `d` characters to the right.
spec fn shifted_spans(sp: Seq<(int, int)>, d: int) -> Seq<(int, int)> {
    sp.map_values(|p: (int, int)| (p.0 + d, p.1 + d))
}

/// After text that is empty or ends in white space, the words of `y` are
/// found where they stand in `y`, moved right by the length of that text.
proof fn lemma_word_spans_append(u: Seq<char>, y: Seq<char>)
    requires
        u.len() == 0 || is_white_space(u.last()),
    ensures
        word_spans(u + y) == word_spans(u) + shifted_spans(word_spans(y), u.len() as int),
    decreases y.len(),
{
    let d = u.len() as int;
    if y.len() == 0 {
        assert(u + y =~= u);
        assert(shifted_spans(word_spans(y), d) =~= Seq::<(int, int)>::empty());
        assert(word_spans(u) + Seq::<(int, int)>::empty() =~= word_spans(u));
    } else {
        let s = u + y;
        let m = y.len() - 1;
        let n = s.len() - 1;
        let yp = y.take(m);
        assert(s.take(n) =~= u + yp);
        lemma_word_spans_append(u, yp);
        let pu = word_spans(u);
        let q = word_spans(yp);
        let p = word_spans(s.take(n));
        assert(p == pu + shifted_spans(q, d));
        assert(s[n] == y[m]);
        if m > 0 {
            assert(s[n - 1] == y[m - 1]);
            assert(yp.last() == y[m - 1]);
        } else if d > 0 {
            assert(s[n - 1] == u.last());
        }
        if is_white_space(y[m]) {
        } else if m > 0 && !is_white_space(y[m - 1]) {
            lemma_word_spans_bounds(yp);
            let q2 = q.update(q.len() - 1, (q.last().0, m + 1));
            assert(word_spans(y) == q2);
            assert(p.last() == (q.last().0 + d, q.last().1 + d));
            assert(word_spans(s) == p.update(p.len() - 1, (p.last().0, n + 1)));
            assert(p.update(p.len() - 1, (p.last().0, n + 1)) =~= pu + shifted_spans(q2, d));
        } else {
            assert(word_spans(y) == q.push((m, m + 1)));
            assert(word_spans(s) == p.push((n, n + 1)));
            assert(p.push((n, n + 1)) =~= pu + shifted_spans(q.push((m, m + 1)), d));
        }
    }
}

/// The words of `x`, a space and `y` are the words of `x` followed by the
/// words of `y`.
pub proof fn lemma_words_of_joined(x: Seq<char>, y: Seq<char>)
    ensures
        words(x + " "@ + y) == words(x) + words(y),
{
    reveal_strlit(" ");
    let u = x + " "@;
    assert(u.take(x.len() as int) =~= x);
    assert(u[x.len() as int] == ' ');
    assert(word_spans(u) == word_spans(x));
    lemma_word_spans_append(u, y);
    lemma_word_spans_bounds(x);
    lemma_word_spans_bounds(y);
    let s = u + y;
    let px = word_spans(x);
    let py = word_spans(y);
    let d = u.len() as int;
    assert(word_spans(s) == px + shifted_spans(py, d));
    assert forall|k: int| 0 <= k < words(s).len() implies #[trigger] words(s)[k] == (words(x)
        + words(y))[k] by {
        if k < px.len() {
            assert(word_spans(s)[k] == px[k]);
            assert(s.subrange(px[k].0, px[k].1) =~= x.subrange(px[k].0, px[k].1));
        } else {
            let j = k - px.len();
            assert(word_spans(s)[k] == (py[j].0 + d, py[j].1 + d));
            assert(s.subrange(py[j].0 + d, py[j].1 + d) =~= y.subrange(py[j].0, py[j].1));
        }
    }
    assert(words(s) =~= words(x) + words(y));
}

/// The word positions of `chars`, as `word_spans` gives them.
fn spans_of(chars: &Vec<char>) -> (spans: Vec<(usize, usize)>)
    ensures
        spans@.len() == word_spans(chars@).len(),
        forall|k: int|
            0 <= k < spans@.len() ==> (#[trigger] spans@[k]).0 == word_spans(chars@)[k].0
                && spans@[k].1 == word_spans(chars@)[k].1,
{
    let mut spans: Vec<(usize, usize)> = Vec::new();
    let mut i: usize = 0;
    while i < chars.len()
        invariant
            i <= chars.len(),
            spans@.len() == word_spans(chars@.take(i as int)).len(),
            forall|k: int|
                0 <= k < spans@.len() ==> (#[trigger] spans@[k]).0 == word_spans(
                    chars@.take(i as int),
                )[k].0 && spans@[k].1 == word_spans(chars@.take(i as int))[k].1,
        decreases chars.len() - i,
    {
        let ghost t = chars@.take(i as int);
        let ghost t1 = chars@.take(i + 1);
        proof {
            assert(t1.take(i as int) =~= t);
            assert(t1[i as int] == chars@[i as int]);
            if i > 0 {
                assert(t1[i - 1] == chars@[i - 1]);
                assert(t.last() == chars@[i - 1]);
            }
            lemma_word_spans_bounds(t);
        }
        let c = chars[i];
        if is_whitespace(c) {
        } else if i > 0 && !is_whitespace(chars[i - 1]) {
            let k = spans.len() - 1;
            let start = spans[k].0;
            spans.set(k, (start, i + 1));
        } else {
            spans.push((i, i + 1));
        }
        i = i + 1;
    }
    assert(chars@.take(chars@.len() as int) =~= chars@);
    spans
}

/// The words of `s`, in order: its maximal runs of characters that are not
/// white space (what `str::split_whitespace` yields).
pub fn split_whitespace(s: &str) -> (ws: Vec<String>)
    ensures
        ws@.len() == words(s@).len(),
        forall|k: int| 0 <= k < ws@.len() ==> (#[trigger] ws@[k])@ == words(s@)[k],
{
    let chars = chars_of(s);
    let spans = spans_of(&chars);
    proof {
        lemma_word_spans_bounds(s@);
    }
    let mut ws: Vec<String> = Vec::new();
    let mut k: usize = 0;
    while k < spans.len()
        invariant
            chars@ == s@,
            k <= spans@.len(),
            spans@.len() == word_spans(s@).len(),
            forall|j: int|
                0 <= j < spans@.len() ==> (#[trigger] spans@[j]).0 == word_spans(s@)[j].0
                    && spans@[j].1 == word_spans(s@)[j].1,
            forall|j: int|
                0 <= j < word_spans(s@).len() ==> 0 <= (#[trigger] word_spans(s@)[j]).0
                    < word_spans(s@)[j].1 <= s@.len(),
            ws@.len() == k,
            forall|j: int| 0 <= j < k ==> (#[trigger] ws@[j])@ == words(s@)[j],
        decreases spans@.len() - k,
    {
        let (a, b) = spans[k];
        proof {
            assert(spans@[k as int].0 == word_spans(s@)[k as int].0);
            assert(word_spans(s@)[k as int].1 <= s@.len());
        }
        let w = String::from_str(s.substring_char(a, b));
        ws.push(w);
        k = k + 1;
    }
    ws
}

/// Decodes UTF-8 bytes into text (`String::from_utf8`): text exactly when
/// the bytes are well-formed UTF-8, and then the characters they encode.
#[verifier::external_body]
pub(crate) fn utf8_text(bytes: Vec<u8>) -> (r: Option<String>)
    ensures
        r is Some <==> valid_utf8(bytes@),
        r matches Some(t) ==> t@ == decode_utf8(bytes@),
{
    match String::from_utf8(bytes) {
        Ok(t) => Some(t),
        Err(_) => None,
    }
}

/// `std::num::ParseIntError`, the error of a failed integer parse, carried
/// as it is.
#[verifier::external_type_specification]
#[verifier::external_body]
pub struct ExParseIntError(std::num::ParseIntError);

/// `c` is a decimal digit `0-9`.
pub open spec fn is_decimal_digit(c: char) -> bool {
    '0' <= c <= '9'
}

/// The number that a run of decimal digits denotes.
pub open spec fn digits_value(s: Seq<char>) -> nat
    decreases s.len(),
{
    if s.len() == 0 {
        0
    } else {
        digits_value(s.drop_last()) * 10 + ((s.last() as int) - ('0' as int)) as nat
    }
}

/// The number that `s` denotes as an unsigned decimal numeral: an optional
/// `+` followed by one or more decimal digits, and nothing else.
pub open spec fn unsigned_numeral(s: Seq<char>) -> Option<nat> {
    let d = if s.len() > 0 && s[0] == '+' {
        s.drop_first()
    } else {
        s
    };
    if d.len() > 0 && forall|i: int| 0 <= i < d.len() ==> is_decimal_digit(#[trigger] d[i]) {
        Some(digits_value(d))
    } else {
        None
    }
}

/// The `u64` that `s` denotes, when it is an unsigned numeral whose value fits.
pub open spec fn parsed_u64(s: Seq<char>) -> Option<u64> {
    match unsigned_numeral(s) {
        Some(v) => if v <= u64::MAX {
            Some(v as u64)
        } else {
            None
        },
        None => None,
    }
}

/// The error that `str::parse::<u64>` gives on a text that is not a `u64`
/// numeral; the same text gives the same error.
pub uninterp spec fn u64_parse_error(s: Seq<char>) -> std::num::ParseIntError;

/// Parses a `u64` (`str::parse::<u64>`): an optional `+` and decimal digits
/// only, whose value fits in 64 bits; anything else is an error, the one that
/// this text gives.
#[verifier::external_body]
pub(crate) fn parse_u64(s: &str) -> (r: Result<u64, std::num::ParseIntError>)
    ensures
        r is Ok <==> parsed_u64(s@) is Some,
        r matches Ok(v) ==> parsed_u64(s@) == Some(v),
        r matches Err(e) ==> e == u64_parse_error(s@),
{
    s.parse::<u64>()
}

/// The lower-case form of a text under the Unicode `Lowercase` mapping, as
/// `str::to_lowercase` computes it.
pub uninterp spec fn lowercase(s: Seq<char>) -> Seq<char>;

/// The lower-case form of `s` (`str::to_lowercase`).
#[verifier::external_body]
pub(crate) fn to_lowercase(s: &str) -> (r: String)
    ensures
        r@ == lowercase(s@),
{
    s.to_lowercase()
}

} // verus!
